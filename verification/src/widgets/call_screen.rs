//! The call screen: the running clock of a connected call and the digit a
//! key of the tone pad sends.

use vstd::prelude::*;
use crate::text::{dec, dec2, push_char, push_dec, push_dec2};

verus! {

/// The clock of a call that has lasted `secs` seconds: `mm:ss`, or
/// `h:mm:ss` from one hour on.
pub open spec fn elapsed_text_spec(secs: nat) -> Seq<char> {
    let h = secs / 3600;
    let m = (secs % 3600) / 60;
    let s = secs % 60;
    if h > 0 {
        dec(h) + seq![':'] + dec2(m) + seq![':'] + dec2(s)
    } else {
        dec2(m) + seq![':'] + dec2(s)
    }
}

/// Formats the time a call has lasted, as the call screen shows it.
pub fn elapsed_text(secs: u64) -> (r: String)
    ensures
        r@ == elapsed_text_spec(secs as nat),
{
    let h = secs / 3600;
    let m = (secs % 3600) / 60;
    let s = secs % 60;
    let mut r = String::new();
    if h > 0 {
        push_dec(&mut r, h);
        push_char(&mut r, ':');
    }
    push_dec2(&mut r, m);
    push_char(&mut r, ':');
    push_dec2(&mut r, s);
    assert(r@ =~= elapsed_text_spec(secs as nat));
    r
}

/// The DTMF digit a key of the tone pad sends: the first character of its
/// label, nothing for an empty label.
pub fn dtmf_digit(label: &str) -> (d: Option<char>)
    ensures
        d == (if label@.len() > 0 { Some(label@[0]) } else { None::<char> }),
{
    if label.unicode_len() > 0 {
        Some(label.get_char(0))
    } else {
        None
    }
}

} // verus!
