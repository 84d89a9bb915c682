//! Monotonic time, as the logic reads it: instants are opaque, and what the
//! logic compares is how many nanoseconds have passed since one of them.

use std::time::{Duration, Instant};
use vstd::prelude::*;

verus! {

#[verifier::external_type_specification]
#[verifier::external_body]
pub struct ExInstant(std::time::Instant);

/// The length, in nanoseconds, of the longest `Duration` there is: its
/// whole seconds are a `u64` and its fraction is below one second, so
/// `Duration::as_nanos` never exceeds `u64::MAX` seconds and 999,999,999
/// nanoseconds.
pub const MAX_DURATION_NANOS: u128 = 18446744073709551615999999999u128;

/// `Instant::now`: the current instant of the monotonic clock. It depends on
/// the clock alone, so nothing is stated of it.
#[verifier::external_body]
pub(crate) fn instant_now() -> (now: Instant) {
    Instant::now()
}

/// `Instant::elapsed`: the time that has passed since `since`, zero if the
/// clock reads earlier. It depends on the clock, so nothing is stated of
/// it.
#[verifier::external_body]
pub(crate) fn instant_elapsed(since: &Instant) -> (elapsed: Duration) {
    since.elapsed()
}

/// The nanoseconds that have passed since `since`: whatever the clock
/// reads, at most the longest duration's length.
pub(crate) fn elapsed_nanos(since: &Instant) -> (nanos: u128)
    ensures
        nanos <= MAX_DURATION_NANOS,
{
    duration_nanos(&instant_elapsed(since))
}

/// The length of a duration in nanoseconds, as `Duration::as_nanos` gives
/// it.
pub uninterp spec fn duration_as_nanos(d: Duration) -> nat;

/// `Duration::as_nanos`: the length of a duration in nanoseconds, named
/// `duration_as_nanos`; as for every duration, it is at most the longest
/// duration's length.
#[verifier::external_body]
pub(crate) fn duration_nanos(duration: &Duration) -> (nanos: u128)
    ensures
        nanos == duration_as_nanos(*duration),
        nanos <= MAX_DURATION_NANOS,
{
    duration.as_nanos()
}

/// `Duration::from_secs`: a duration of `secs` whole seconds, that is
/// `secs` billion nanoseconds.
pub assume_specification[ std::time::Duration::from_secs ](secs: u64) -> (d: Duration)
    ensures
        duration_as_nanos(d) == secs * 1_000_000_000,
;

} // verus!
