//! Durations, and readings of the monotonic clock.

use std::time::{Duration, Instant};
use vstd::prelude::*;

verus! {

/// `std::time::Instant`, a reading of the monotonic clock.
#[verifier::external_type_specification]
#[verifier::external_body]
pub struct ExInstant(std::time::Instant);

/// The nanoseconds that a `Duration` holds.
pub uninterp spec fn duration_nanos(d: Duration) -> u128;

/// `Duration::as_nanos`: the nanoseconds that the duration holds.
#[verifier::external_body]
pub(crate) fn as_nanos(d: Duration) -> (nanos: u128)
    ensures
        nanos == duration_nanos(d),
{
    d.as_nanos()
}

/// The whole seconds that a `Duration` holds.
pub open spec fn seconds(d: Duration) -> int {
    duration_nanos(d) as int / 1_000_000_000
}

/// `Duration::as_secs`: the whole seconds that the duration holds.
#[verifier::external_body]
pub(crate) fn as_secs(d: Duration) -> (secs: u64)
    ensures
        secs == seconds(d),
{
    d.as_secs()
}

/// `Duration::from_secs`: that many thousand million nanoseconds.
#[verifier::external_body]
pub(crate) fn from_secs(secs: u64) -> (d: Duration)
    ensures
        duration_nanos(d) == secs * 1_000_000_000,
{
    Duration::from_secs(secs)
}

/// `Instant::now`: a reading of the clock, of which nothing is known.
#[verifier::external_body]
pub(crate) fn now() -> (reading: Instant) {
    Instant::now()
}

/// The time from one reading of the clock to a later one, as `Instant::duration_since` has it.
pub uninterp spec fn duration_between(later: Instant, earlier: Instant) -> Duration;

/// `Instant::duration_since`: the time from the earlier reading to the later one.
#[verifier::external_body]
pub(crate) fn duration_since(later: &Instant, earlier: &Instant) -> (time: Duration)
    ensures
        time == duration_between(*later, *earlier),
{
    later.duration_since(*earlier)
}

/// Whether nanoseconds are the time from a reading of the clock to some other reading.
pub open spec fn is_time_since(start: Instant, nanos: u128) -> bool {
    exists|reading: Instant| nanos == duration_nanos(#[trigger] duration_between(reading, start))
}

/// The nanoseconds from a reading of the clock to now.
pub(crate) fn nanos_since(start: &Instant) -> (nanos: u128)
    ensures
        is_time_since(*start, nanos),
{
    let reading = now();
    as_nanos(duration_since(&reading, start))
}

} // verus!
