//! The current time, read through the `chrono` crate.

use vstd::prelude::*;

verus! {

/// Unix timestamps, in seconds, below this bound are all that `chrono` can
/// represent: its day number is an `i32` and a day has 86 400 seconds.
pub const CLOCK_LIMIT: i64 = 0x1_0000_0000_0000;

/// Calls `chrono::Utc::now` and takes the `timestamp` of what it returns:
/// whole seconds since the Unix epoch. `Utc::now` panics for a system time
/// before the epoch, so the result is never negative, and it stays below
/// `CLOCK_LIMIT`. Two calls may differ.
#[verifier::external_body]
pub(crate) fn unix_now() -> (now: i64)
    ensures
        0 <= now < CLOCK_LIMIT,
{
    chrono::Utc::now().timestamp()
}

} // verus!
