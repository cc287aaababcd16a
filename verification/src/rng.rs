//! Randomness for the initial grid population, behind a trusted boundary.

use vstd::prelude::*;
use rand::Rng;

verus! {

/// Relies on rand's `Rng::gen_ratio` on the thread-local generator: it
/// returns true with probability `numerator / denominator`, panics only when
/// the denominator is zero or the numerator exceeds it, always returns false
/// for a zero numerator, and always returns true when the numerator equals
/// the denominator.
#[verifier::external_body]
pub(crate) fn random_ratio(numerator: u32, denominator: u32) -> (r: bool)
    requires
        0 < denominator,
        numerator <= denominator,
    ensures
        numerator == 0 ==> !r,
        numerator == denominator ==> r,
{
    rand::thread_rng().gen_ratio(numerator, denominator)
}

} // verus!
