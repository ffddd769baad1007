//! The source of randomness for mine placement.
//!
//! These are the only places where the engine leaves verified code. Their
//! contracts are taken on trust from the `rand` crate.

use rand::rngs::ThreadRng;
use rand::Rng;
use vstd::prelude::*;

verus! {

/// The handle of `rand`'s thread-local generator, opaque to the verifier.
#[verifier::external_type_specification]
#[verifier::external_body]
pub struct ExThreadRng(rand::rngs::ThreadRng);

/// Calls `rand::thread_rng`, which hands out the calling thread's
/// generator. It takes no argument, and nothing is claimed of the generator
/// it returns.
#[verifier::external_body]
pub(crate) fn thread_rng() -> ThreadRng {
    rand::thread_rng()
}

/// Calls `Rng::gen_range` on the half-open range `0..bound`.
///
/// `gen_range` panics on an empty range, which `bound > 0` rules out. It
/// documents its result as a value in the given range, and that is all the
/// contract claims: which value is drawn is left open.
#[verifier::external_body]
pub(crate) fn random_below(rng: &mut ThreadRng, bound: usize) -> (value: usize)
    requires
        bound > 0,
    ensures
        value < bound,
{
    rng.gen_range(0..bound)
}

} // verus!
