//! Speed-dial entries.

use vstd::prelude::*;
use vstd::string::*;
use crate::accounts::{id_text, new_id, IdGen};

verus! {

/// A configurable speed-dial entry: a human label and the number it dials.
#[derive(Clone, Debug)]
pub struct QuickDial {
    pub id: String,
    pub label: String,
    pub number: String,
}

/// The text on a dial button: the label if set, else the number, else
/// "Quickdial".
pub open spec fn display_label_spec(label: Seq<char>, number: Seq<char>) -> Seq<char> {
    if label.len() > 0 {
        label
    } else if number.len() > 0 {
        number
    } else {
        "Quickdial"@
    }
}

impl QuickDial {
    /// A fresh entry with a new identifier and empty label and number.
    pub fn new(ids: &mut IdGen) -> (q: QuickDial)
        ensures
            q.id@ == id_text(final(ids).last_nanos(), old(ids).next_counter() as nat),
            final(ids).next_counter() == old(ids).next_counter().wrapping_add(1),
            q.label@.len() == 0,
            q.number@.len() == 0,
    {
        QuickDial { id: new_id(ids), label: String::new(), number: String::new() }
    }

    /// Text shown on the dial button: the label if set, else the number.
    pub fn display_label(&self) -> (s: String)
        ensures
            s@ == display_label_spec(self.label@, self.number@),
    {
        if !self.label.as_str().is_empty() {
            self.label.clone()
        } else if !self.number.as_str().is_empty() {
            self.number.clone()
        } else {
            String::from_str("Quickdial")
        }
    }
}

} // verus!
