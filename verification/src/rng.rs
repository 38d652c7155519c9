//! The trusted boundary to the random number generator. Nothing is assumed
//! about which value comes back beyond its range, so everything proved about
//! the callers holds for every possible draw.

use vstd::prelude::*;

verus! {

/// Relies on `rand::Rng::gen_range` on the thread-local generator: a uniform
/// draw in `[lo, hi)`. The range is non-empty, so the call cannot panic.
#[verifier::external_body]
pub(crate) fn rand_range(lo: i64, hi: i64) -> (r: i64)
    requires
        lo < hi,
    ensures
        lo <= r < hi,
{
    rand::Rng::gen_range(&mut rand::thread_rng(), lo..hi)
}

} // verus!
