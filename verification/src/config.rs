//! The settings of the single-account layout, as read from the settings
//! store.

use vstd::prelude::*;

verus! {

/// The stored values of the single-account settings.
pub struct Config {
    pub server: String,
    pub username: String,
    pub password: String,
    pub display_name: String,
    /// The port setting as stored, a 32-bit integer.
    pub port_setting: i32,
}

impl Config {
    pub fn server(&self) -> (s: String)
        ensures
            s@ == self.server@,
    {
        self.server.clone()
    }

    pub fn username(&self) -> (s: String)
        ensures
            s@ == self.username@,
    {
        self.username.clone()
    }

    pub fn password(&self) -> (s: String)
        ensures
            s@ == self.password@,
    {
        self.password.clone()
    }

    pub fn display_name(&self) -> (s: String)
        ensures
            s@ == self.display_name@,
    {
        self.display_name.clone()
    }

    /// The port: the stored setting cut to its low 16 bits.
    pub fn port(&self) -> (p: u16)
        ensures
            p == self.port_setting as u16,
    {
        self.port_setting as u16
    }

    /// Configured means a user name and a server are set.
    pub fn is_configured(&self) -> (b: bool)
        ensures
            b == (self.username@.len() > 0 && self.server@.len() > 0),
    {
        !self.username.as_str().is_empty() && !self.server.as_str().is_empty()
    }
}

} // verus!
