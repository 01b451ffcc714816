//! The wall clock. Its readings depend on when they are taken, so nothing
//! is stated of them beyond their type; the logic that uses a reading takes
//! it as an argument and is verified for every value.

use std::time::{Duration, SystemTime};
use vstd::prelude::*;

verus! {

#[verifier::external_type_specification]
#[verifier::external_body]
pub struct ExSystemTime(std::time::SystemTime);

/// `SystemTime::now`: the current wall-clock time (nothing is stated of it).
#[verifier::external_body]
fn system_now() -> SystemTime {
    SystemTime::now()
}

/// `SystemTime::duration_since(UNIX_EPOCH)`: the time elapsed since the Unix
/// epoch, or `None` when `t` lies before it (nothing more is stated).
#[verifier::external_body]
fn since_epoch(t: &SystemTime) -> Option<Duration> {
    match t.duration_since(SystemTime::UNIX_EPOCH) {
        Ok(d) => Some(d),
        Err(_) => None,
    }
}

/// `Duration::as_nanos`: the whole duration in nanoseconds (nothing is stated of it).
#[verifier::external_body]
fn duration_nanos(d: &Duration) -> u128 {
    d.as_nanos()
}

/// `Duration::as_secs`: the whole seconds of the duration (nothing is stated of it).
#[verifier::external_body]
fn duration_secs(d: &Duration) -> u64 {
    d.as_secs()
}

/// Nanoseconds since the Unix epoch, or 0 when the clock reads earlier.
pub fn unix_nanos() -> u128 {
    let now = system_now();
    match since_epoch(&now) {
        Some(d) => duration_nanos(&d),
        None => 0,
    }
}

/// Whole seconds since the Unix epoch, or 0 when the clock reads earlier.
pub fn now_unix() -> i64 {
    let now = system_now();
    match since_epoch(&now) {
        Some(d) => duration_secs(&d) as i64,
        None => 0,
    }
}

} // verus!
