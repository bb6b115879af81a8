//! The time of day.
use vstd::prelude::*;

verus! {

/// A second, in microseconds.
pub const MICROS_PER_SECOND: i64 = 1_000_000;

/// The last moment that the clock can tell, in microseconds since the Unix epoch: the
/// end of the year 262142.
pub const CLOCK_END: i64 = 8_210_266_876_799_999_999;

/// `Utc::now` and `timestamp_micros` of the crate chrono. Believed: the clock tells a
/// moment from the Unix epoch on, within the years that chrono can hold. Which moment is
/// left to the machine.
#[verifier::external_body]
pub(crate) fn now_micros() -> (res: i64)
    ensures
        0 <= res <= CLOCK_END,
{
    chrono::Utc::now().timestamp_micros()
}

} // verus!
