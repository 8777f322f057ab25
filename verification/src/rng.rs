//! The library's only use of randomness: uniform index and fraction draws.
use rand::Rng;
use vstd::prelude::*;

verus! {

/// Relies on `rand::Rng::gen_range` over `lo..hi`: a uniformly drawn index
/// in the half-open range.  Nothing is assumed beyond the range bound.
#[verifier::external_body]
pub fn rand_index(lo: usize, hi: usize) -> (r: usize)
    requires
        lo < hi,
    ensures
        lo <= r < hi,
{
    rand::thread_rng().gen_range(lo..hi)
}

/// Relies on `rand::Rng::gen_range` over `0..=n`: a uniformly drawn
/// numerator for a fraction of denominator `n`.  Nothing is assumed beyond
/// the range bound.
#[verifier::external_body]
pub fn rand_upto(n: u32) -> (r: u32)
    ensures
        r <= n,
{
    rand::thread_rng().gen_range(0..=n)
}

} // verus!
