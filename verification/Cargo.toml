[package]
name = "tmwphone"
version = "0.1.0"
edition = "2021"
publish = false

[dependencies]
serde = { version = "1", features = ["derive"] }
serde_json = "1"
log = "0.4"
env_logger = "*"
glib = "*"
gio = "*"
gtk4 = { version = "*", features = ["v4_10"] }
libadwaita = { version = "*", features = ["v1_6"] }
gstreamer = "*"
libsecret = "*"
