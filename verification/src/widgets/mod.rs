//! The decisions made inside the widgets: the dial pad's account choice
//! and number editing, the call screen's clock, and the account editor.

pub mod dialpad;
pub mod call_screen;
pub mod settings_dialog;
