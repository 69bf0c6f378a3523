//! Durations.
//!
//! The trusted items here speak of `std::time::Duration`.
use std::time::Duration;
use vstd::prelude::*;

verus! {

/// The length of a duration in nanoseconds.
pub uninterp spec fn nanos(duration: Duration) -> nat;

/// `Duration::as_nanos`: the total number of nanoseconds.
pub assume_specification[ Duration::as_nanos ](duration: &Duration) -> (total: u128)
    ensures
        total == nanos(*duration),
;

/// `Duration::from_secs`: the given number of whole seconds.
pub assume_specification[ Duration::from_secs ](secs: u64) -> (duration: Duration)
    ensures
        nanos(duration) == secs * 1_000_000_000,
;

/// Calls `std`'s subtraction of durations, which panics when the result would be
/// negative.
///
/// Claimed: the lengths are subtracted.
#[verifier::external_body]
pub(crate) fn minus(left: Duration, right: Duration) -> (difference: Duration)
    requires
        nanos(left) >= nanos(right),
    ensures
        nanos(difference) == nanos(left) - nanos(right),
{
    left - right
}

/// The part of `limit` that is left after `elapsed`; nothing once `elapsed` has
/// reached `limit`.
pub fn remaining(limit: Duration, elapsed: Duration) -> (left: Option<Duration>)
    ensures
        match left {
            Some(left) => nanos(elapsed) < nanos(limit) && nanos(left) == nanos(limit) - nanos(
                elapsed,
            ),
            None => nanos(elapsed) >= nanos(limit),
        },
{
    if elapsed.as_nanos() >= limit.as_nanos() {
        None
    } else {
        Some(minus(limit, elapsed))
    }
}

} // verus!
