//! The one clock read the handlers make.

use vstd::prelude::*;

verus! {

/// Relies on chrono's `Utc::now` and `DateTime::timestamp_micros`: the
/// current time as non-leap microseconds since the Unix epoch. `Utc::now`
/// refuses a pre-epoch system clock, so the count is non-negative; nothing
/// more can be promised of a clock.
#[verifier::external_body]
pub fn now_micros() -> (t: i64)
    ensures
        t >= 0,
{
    chrono::Utc::now().timestamp_micros()
}

} // verus!
