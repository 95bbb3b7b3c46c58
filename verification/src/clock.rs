//! The local time of day, read from the system clock.
use chrono::Timelike;
use vstd::prelude::*;

verus! {

/// Calls `chrono::Local::now()` and returns the hour and minute of the local time of day.
/// What comes back depends on the clock and the time zone; the contract states only the
/// ranges that chrono documents for `Timelike::hour` (0 to 23) and `Timelike::minute` (0 to 59).
#[verifier::external_body]
pub(crate) fn local_time_of_day() -> (res: (u32, u32))
    ensures
        res.0 < 24,
        res.1 < 60,
{
    let now = chrono::Local::now();
    (now.hour(), now.minute())
}

} // verus!
