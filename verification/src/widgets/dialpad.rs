//! The dial pad: editing the number and choosing the account a call goes
//! through.

use vstd::prelude::*;
use crate::text::{chars_of, string_of};

verus! {

/// The selector of accounts shows only when there is a choice.
pub fn selector_visible(count: usize) -> (v: bool)
    ensures
        v == (count > 1),
{
    count > 1
}

/// The account a call goes through: the selected one while the selector
/// shows (none when the selection is out of range), else the only one
/// (none when there is none). An empty identifier stands for "none".
pub fn chosen_account(ids: &Vec<String>, selector_shown: bool, selected: u32) -> (id: String)
    ensures
        id@ == (if selector_shown {
            if (selected as int) < ids@.len() { ids@[selected as int]@ } else { Seq::empty() }
        } else {
            if ids@.len() > 0 { ids@[0]@ } else { Seq::empty() }
        }),
{
    if selector_shown {
        let idx = selected as usize;
        if idx < ids.len() { ids[idx].clone() } else { String::new() }
    } else {
        if ids.len() > 0 { ids[0].clone() } else { String::new() }
    }
}

/// The number once a digit key is pressed: the key's label goes at the end.
pub fn with_digit(number: &str, digit: &str) -> (r: String)
    ensures
        r@ == number@ + digit@,
{
    let mut r = String::from_str(number);
    crate::text::append_str(&mut r, digit);
    r
}

/// The number once the delete key is pressed: its last character goes.
pub fn backspace(number: &str) -> (r: String)
    ensures
        r@ == (if number@.len() > 0 { number@.drop_last() } else { number@ }),
{
    let v = chars_of(number);
    if v.len() == 0 {
        return String::new();
    }
    let r = string_of(&v, 0, v.len() - 1);
    assert(r@ =~= number@.drop_last());
    r
}

/// A call is requested only for a non-empty number.
pub fn can_dial(number: &str) -> (b: bool)
    ensures
        b == (number@.len() > 0),
{
    !number.is_empty()
}

} // verus!
