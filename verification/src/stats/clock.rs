//! The monotonic clock that dates reports.

use std::time::Instant;
use vstd::prelude::*;

verus! {

/// A point in time on the monotonic clock, carried without looking inside.
#[verifier::external_type_specification]
#[verifier::external_body]
pub struct ExInstant(std::time::Instant);

/// The nanoseconds from `earlier` to `later`, or `None` when `later` is the
/// earlier of the two, as `Instant::checked_duration_since` gives them.
pub uninterp spec fn elapsed_between(later: Instant, earlier: Instant) -> Option<u128>;

/// `Instant::now`: the current time, of which nothing is claimed.
#[verifier::external_body]
pub(crate) fn now() -> (instant: Instant) {
    Instant::now()
}

/// `Instant::checked_duration_since`, in nanoseconds: a function of the two
/// points in time.
#[verifier::external_body]
pub(crate) fn elapsed_nanos(later: &Instant, earlier: &Instant) -> (elapsed: Option<u128>)
    ensures
        elapsed == elapsed_between(*later, *earlier),
{
    match later.checked_duration_since(*earlier) {
        Some(elapsed) => Some(elapsed.as_nanos()),
        None => None,
    }
}

} // verus!
