//! The random number generator, as far as the game knows it.

use rand::Rng;
use vstd::prelude::*;

verus! {

/// The thread-local generator of the `rand` crate. Nothing is known of what
/// is inside it.
#[verifier::external_type_specification]
#[verifier::external_body]
pub struct ExThreadRng(rand::rngs::ThreadRng);

/// `rand::thread_rng` hands out a handle to the calling thread's generator.
/// Nothing is claimed of the handle.
pub assume_specification[ rand::thread_rng ]() -> (rng: rand::rngs::ThreadRng);

/// Draws a number from `0` up to, not including, `bound` by
/// `rand::Rng::gen_range(0, bound)`. That call panics unless `0 < bound`,
/// and samples from the half-open range; which number comes out is left
/// open, so all that is claimed is that it lies below `bound`.
#[verifier::external_body]
pub(crate) fn random_below(rng: &mut rand::rngs::ThreadRng, bound: usize) -> (drawn: usize)
    requires
        0 < bound,
    ensures
        drawn < bound,
{
    rng.gen_range(0, bound)
}

} // verus!
