//! Random numbers, drawn by the `rand` crate.

use vstd::prelude::*;
use rand::rngs::ThreadRng;
use rand::Rng;

verus! {

/// The generator of the `rand` crate that belongs to the current thread.
#[verifier::external_type_specification]
#[verifier::external_body]
pub struct ExThreadRng(ThreadRng);

/// `rand::rng` hands out the generator of the current thread. Nothing is
/// assumed of it. It takes no argument; it panics where the operating system
/// gives the generator no seed.
pub assume_specification[ rand::rng ]() -> (generator: ThreadRng);

/// Draws a number below `bound` with `Rng::random_range` on the range
/// `0..bound`.
///
/// Assumed, not proved: the number drawn lies in the range. Which number it
/// is depends on the generator, and nothing is said of it. The range must not
/// be empty, since `random_range` panics on an empty range.
#[verifier::external_body]
pub(crate) fn random_below(generator: &mut ThreadRng, bound: usize) -> (drawn: usize)
    requires
        bound > 0,
    ensures
        drawn < bound,
{
    generator.random_range(0..bound)
}

} // verus!
