//! The monotonic clock that paces report timestamps.
use std::time::Instant;
use vstd::prelude::*;

verus! {

/// A reading of the operating system's monotonic clock.
#[verifier::external_type_specification]
#[verifier::external_body]
pub struct ExInstant(std::time::Instant);

/// `std::time::Instant::now`: reads the clock. Nothing is claimed of the
/// reading; it is different at every call.
pub assume_specification[ std::time::Instant::now ]() -> Instant
;

/// The nanoseconds that lie between two readings of the clock; zero where
/// `later` in fact comes first.
pub uninterp spec fn nanos_between(earlier: Instant, later: Instant) -> u128;

/// `std::time::Instant::saturating_duration_since`, its `Duration` taken as a
/// whole number of nanoseconds. Claims that the answer is determined by the two
/// readings, and nothing about how large it is.
#[verifier::external_body]
pub(crate) fn nanos_since(later: Instant, earlier: Instant) -> (nanos: u128)
    ensures
        nanos == nanos_between(earlier, later),
{
    later.saturating_duration_since(earlier).as_nanos()
}

} // verus!
