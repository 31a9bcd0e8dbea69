//! The system clock.

use vstd::prelude::*;

use std::time::{Duration, SystemTime};

verus! {

#[verifier::external_type_specification]
#[verifier::external_body]
pub struct ExSystemTime(std::time::SystemTime);

/// Calls `SystemTime::now()`. The time is the machine's, so nothing is
/// promised of it.
#[verifier::external_body]
fn system_now() -> SystemTime {
    SystemTime::now()
}

/// Calls `SystemTime::duration_since(UNIX_EPOCH)` on `t`: the distance from
/// the Unix epoch, or, when `t` stands before it, the error's message. Nothing
/// is promised of either, which rest on the clock.
#[verifier::external_body]
fn since_epoch(t: &SystemTime) -> Result<Duration, String> {
    match t.duration_since(std::time::UNIX_EPOCH) {
        Ok(d) => Ok(d),
        Err(e) => Err(e.to_string()),
    }
}

/// Calls `Duration::as_secs`: the whole seconds of `d`. `Duration` is opaque
/// here, so nothing is stated of the result.
#[verifier::external_body]
fn whole_secs(d: &Duration) -> u64 {
    d.as_secs()
}

/// Calls `Duration::subsec_nanos`, whose documentation promises a value below
/// one second's worth of nanoseconds.
#[verifier::external_body]
fn subsec_nanos(d: &Duration) -> (r: u32)
    ensures
        r < 1_000_000_000,
{
    d.subsec_nanos()
}

/// The time since the Unix epoch, in whole seconds and the nanoseconds beyond
/// them, or, when the clock stands before the epoch, why it could not be read.
pub(crate) fn unix_time() -> (r: Result<(u64, u32), String>)
    ensures
        r matches Ok(t) ==> t.1 < 1_000_000_000,
{
    let now = system_now();
    match since_epoch(&now) {
        Ok(d) => Ok((whole_secs(&d), subsec_nanos(&d))),
        Err(e) => Err(e),
    }
}

} // verus!
