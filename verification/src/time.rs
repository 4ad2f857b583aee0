//! Reading the wall clock.

use chrono::Utc;
use vstd::prelude::*;

verus! {

/// The current time in milliseconds since the start of 1970 (UTC).
///
/// Trusted: calls `chrono::Utc::now` and `DateTime::timestamp_millis`. `Utc::now`
/// measures the time that has passed since the start of 1970 and fails where the
/// system clock stands before that, so the count is never negative; nothing else
/// is claimed, and two calls may return any two values.
#[verifier::external_body]
pub(crate) fn now_millis() -> (ms: i64)
    ensures
        ms >= 0,
{
    Utc::now().timestamp_millis()
}

/// The later of two moments.
pub open spec fn later(a: i64, b: i64) -> i64 {
    if a >= b {
        a
    } else {
        b
    }
}

/// The later of two moments.
pub(crate) fn latest(a: i64, b: i64) -> (m: i64)
    ensures
        m == later(a, b),
{
    if a >= b {
        a
    } else {
        b
    }
}

} // verus!
