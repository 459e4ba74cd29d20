//! The wall clock.
use vstd::prelude::*;

verus! {

/// The furthest from the epoch, in microseconds, that a chrono time lies:
/// chrono keeps years within -262143..=262142.
pub const CLOCK_LIMIT_MICROS: i64 = 8_400_000_000_000_000_000;

/// `chrono::Utc::now().timestamp_micros()`: the current time in microseconds
/// since the Unix epoch. Claimed only: it lies within chrono's range of
/// years, so within `CLOCK_LIMIT_MICROS` of the epoch.
#[verifier::external_body]
pub(crate) fn now_micros() -> (now: i64)
    ensures
        -CLOCK_LIMIT_MICROS <= now <= CLOCK_LIMIT_MICROS,
{
    chrono::Utc::now().timestamp_micros()
}

} // verus!
