//! The two sources of chance that the simulation draws on.
use vstd::prelude::*;
use rand::Rng;

verus! {

/// Draws a number between `lo` and `hi`, both included, with
/// `rand::Rng::gen_range` on the thread's generator. Trusted: that the number
/// lies in the range. `gen_range` panics on an empty range, which the
/// precondition rules out.
#[verifier::external_body]
pub(crate) fn random_between(lo: i64, hi: i64) -> (r: i64)
    requires
        lo <= hi,
    ensures
        lo <= r <= hi,
{
    rand::thread_rng().gen_range(lo..=hi)
}

/// Draws any `usize` with `rand::random`. Nothing is claimed of the number.
#[verifier::external_body]
pub(crate) fn random_index() -> usize {
    rand::random::<usize>()
}

} // verus!
