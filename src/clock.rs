//! Time stamps: microseconds since the Unix epoch.

use vstd::prelude::*;

verus! {

/// Relies on chrono's `Utc::now`, read with `DateTime::timestamp_micros`: the current
/// time in microseconds since the Unix epoch. It comes from the machine's clock, so
/// nothing is known of its value. chrono panics if the clock reads before 1970.
#[verifier::external_body]
pub(crate) fn now_micros() -> (r: i64) {
    chrono::Utc::now().timestamp_micros()
}

/// The modification time that follows `prev` when the clock reads `now`: the clock's
/// reading if it is later, else one tick after `prev` (the latest representable time
/// stays where it is), so that successive modifications never go back in time.
pub open spec fn advanced(prev: i64, now: i64) -> i64 {
    if now > prev {
        now
    } else if prev < i64::MAX {
        (prev + 1) as i64
    } else {
        prev
    }
}

/// Computes `advanced(prev, now)`.
pub fn advance(prev: i64, now: i64) -> (r: i64)
    ensures
        r == advanced(prev, now),
        r >= prev,
{
    if now > prev {
        now
    } else if prev < i64::MAX {
        prev + 1
    } else {
        prev
    }
}

} // verus!
