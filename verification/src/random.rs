//! The source of randomness from which session identifiers are drawn.

use vstd::prelude::*;
use rand::Rng;

verus! {

/// The per-thread generator of the `rand` crate, carried as an opaque value.
#[verifier::external_type_specification]
#[verifier::external_body]
pub struct ExThreadRng(rand::rngs::ThreadRng);

/// Calls `rand::thread_rng`, which hands out the calling thread's
/// generator. Nothing is claimed of what it returns.
#[verifier::external_body]
pub(crate) fn thread_generator() -> rand::rngs::ThreadRng {
    rand::thread_rng()
}

/// Calls `rand::Rng::gen::<usize>` on the generator, which draws one
/// number. Nothing is claimed of the number: any `usize` may come back.
#[verifier::external_body]
pub(crate) fn draw_number(rng: &mut rand::rngs::ThreadRng) -> usize {
    rng.gen::<usize>()
}

} // verus!
