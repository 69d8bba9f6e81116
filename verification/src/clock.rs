//! Time, as the queue sees it: microseconds since the Unix epoch.

use vstd::prelude::*;

verus! {

/// How many microseconds make one second.
pub const MICROS_PER_SECOND: i64 = 1_000_000;

/// The last instant that `chrono` can hold in UTC, the end of the year
/// 262142, in microseconds since the Unix epoch.
pub const LATEST_READING: i64 = 8_210_266_876_799_999_999;

/// Reads the wall clock with `chrono::Utc::now` and turns the reading into
/// microseconds since the Unix epoch with `DateTime::timestamp_micros`.
///
/// Of the reading the contract claims only its range, and two calls may give
/// any two numbers in it. `Utc::now` measures the time since the epoch, so
/// the reading is not negative, and it builds a `DateTime` from it, so the
/// reading is none that `chrono` cannot hold. `chrono` stops the process if
/// the system clock stands before 1970 or beyond that last instant.
#[verifier::external_body]
pub(crate) fn now() -> (micros: i64)
    ensures
        0 <= micros <= LATEST_READING,
{
    chrono::Utc::now().timestamp_micros()
}

/// The instant `wait_seconds` after `now`.
pub open spec fn after(now: i64, wait_seconds: u16) -> int {
    now + wait_seconds * MICROS_PER_SECOND
}

/// The instant `wait_seconds` after `now`, or `None` where that instant lies
/// beyond the last one an `i64` can hold.
pub fn add_seconds(now: i64, wait_seconds: u16) -> (later: Option<i64>)
    ensures
        later is Some <==> after(now, wait_seconds) <= i64::MAX,
        later is Some ==> later->0 == after(now, wait_seconds),
{
    let span: i64 = (wait_seconds as i64) * MICROS_PER_SECOND;
    if now <= i64::MAX - span {
        Some(now + span)
    } else {
        None
    }
}

} // verus!
