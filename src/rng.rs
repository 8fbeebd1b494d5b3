//! The random draws of the simulation. Each draw comes from rand's thread-local
//! generator; nothing is known of a result beyond its range.

use rand::Rng;
use vstd::prelude::*;

verus! {

/// Relies on `rand::Rng::gen_range` over `0..bound`: a value below `bound`;
/// the range is non-empty, so the call does not panic.
#[verifier::external_body]
pub(crate) fn random_below(bound: usize) -> (r: usize)
    requires
        bound > 0,
    ensures
        r < bound,
{
    rand::thread_rng().gen_range(0..bound)
}

/// Relies on `rand::Rng::gen_range` over `lo..=hi`: a value between the two
/// bounds, both included; the range is non-empty, so the call does not panic.
#[verifier::external_body]
pub(crate) fn random_between(lo: u32, hi: u32) -> (r: u32)
    requires
        lo <= hi,
    ensures
        lo <= r <= hi,
{
    rand::thread_rng().gen_range(lo..=hi)
}

/// Relies on `rand::Rng::gen_ratio`: true with probability
/// `numerator / denominator`; never true for a zero numerator and always
/// true when the two are equal. It panics on a zero denominator or a
/// numerator above the denominator, which `requires` leaves out.
#[verifier::external_body]
pub(crate) fn random_ratio(numerator: u32, denominator: u32) -> (r: bool)
    requires
        0 < denominator,
        numerator <= denominator,
    ensures
        numerator == 0 ==> !r,
        numerator == denominator ==> r,
{
    rand::thread_rng().gen_ratio(numerator, denominator)
}

} // verus!
