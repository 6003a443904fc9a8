//! The source of randomness for coin flips.
//!
//! Nothing is assumed of a drawn value beyond its range, so everything the
//! library proves holds for every sequence of draws.
use vstd::prelude::*;

verus! {

/// Relies on fastrand::u64: a draw from the range `0..bound`, which panics
/// only on an empty range; `bound >= 1` rules that out. No distribution is
/// assumed: only that the result lies below `bound`.
#[verifier::external_body]
pub(crate) fn draw_below(bound: u64) -> (r: u64)
    requires
        bound >= 1,
    ensures
        r < bound,
{
    fastrand::u64(0..bound)
}

} // verus!
