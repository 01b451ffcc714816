//! TMWPhone core: the verified logic of a SIP softphone.
//!
//! The library holds the account model, the call log and its line format,
//! the display helpers for SIP addresses, the reading of SIP stack events
//! and the requests an engine hands to the stack, the decision logic of the
//! main window (which account places a call, what a SIP event does to the
//! call state, when engines are reconnected), the ringer's cadence, the
//! codec choice of an audio session, and the decisions made inside the
//! widgets. Everything that talks to GTK, GStreamer, libsecret, the C SIP
//! stack or the disk lives outside the library and drives it.

pub mod text;
pub mod call_log;
pub mod clock;
pub mod accounts;
pub mod quickdial;
pub mod sip;
pub mod window;
pub mod ringer;
pub mod audio;
pub mod widgets;
pub mod config;
