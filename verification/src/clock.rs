//! Wall-clock values: when something was observed, and how long ago that was.
use std::time::{Duration, Instant};
use vstd::prelude::*;

verus! {

/// `std::time::Instant`, an opaque reading of the monotonic clock.
#[verifier::external_type_specification]
#[verifier::external_body]
pub struct ExInstant(Instant);

/// The number of nanoseconds in a duration.
pub uninterp spec fn duration_nanos(d: Duration) -> u128;

/// The nanoseconds in the longest duration there is.
pub open spec fn max_duration_nanos() -> int {
    u64::MAX * 1_000_000_000 + 999_999_999
}

/// `Instant::now` reads the clock; nothing is claimed of the reading.
pub assume_specification[ Instant::now ]() -> Instant
;

/// `reading` is one that `Instant::now` gives. It depends on when it is taken, so there is more
/// than one.
pub open spec fn is_clock_reading(reading: Instant) -> bool {
    call_ensures(Instant::now, (), reading)
}

/// `Instant::clone` copies a reading: `Instant` is a `Copy` type.
pub assume_specification[ <Instant as Clone>::clone ](reading: &Instant) -> (copy: Instant)
    ensures
        copy == *reading,
;

/// `Duration::clone` copies a duration: `Duration` is a `Copy` type.
pub assume_specification[ <Duration as Clone>::clone ](d: &Duration) -> (copy: Duration)
    ensures
        copy == *d,
;

/// `Instant::elapsed` measures how long ago `since` was; nothing is claimed of the measure.
pub assume_specification[ Instant::elapsed ](since: &Instant) -> Duration
;

/// `Duration::as_nanos` gives the total number of nanoseconds in `d`, which no duration has
/// more of than `Duration::MAX`.
pub assume_specification[ Duration::as_nanos ](d: &Duration) -> (nanos: u128)
    ensures
        nanos == duration_nanos(*d),
        nanos <= max_duration_nanos(),
;

/// `age` is a measure that `Instant::elapsed` gives for `since`. It depends on when it is taken,
/// so there is more than one.
pub open spec fn is_measured_age(since: Instant, age: Duration) -> bool {
    call_ensures(Instant::elapsed, (&since,), age)
}

/// `stale` says whether a measured age of `since` lies beyond `threshold`.
pub open spec fn is_staleness(stale: bool, since: Instant, threshold: Duration) -> bool {
    exists|age: Duration| #[trigger]
        is_measured_age(since, age) && stale == (duration_nanos(age) > duration_nanos(threshold))
}

/// Says whether an age lies beyond a threshold.
pub fn is_older(age: Duration, threshold: Duration) -> (older: bool)
    ensures
        older == (duration_nanos(age) > duration_nanos(threshold)),
        duration_nanos(threshold) == max_duration_nanos() ==> !older,
{
    age.as_nanos() > threshold.as_nanos()
}

} // verus!
