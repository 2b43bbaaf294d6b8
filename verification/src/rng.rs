//! Trusted boundary to the `rand` crate: the grid's random source for fruit
//! placement.

use vstd::prelude::*;
use rand::RngExt;

verus! {

#[verifier::external_type_specification]
#[verifier::external_body]
pub struct ExThreadRng(rand::rngs::ThreadRng);

/// Relies on `rand::rng`: hands out the calling thread's generator.  Nothing
/// is assumed about its state; it can panic only if the operating system's
/// random source fails during the very first seeding.
#[verifier::external_body]
pub fn fresh_rng() -> rand::rngs::ThreadRng {
    rand::rng()
}

/// Relies on `rand::RngExt::random_range` over `0..bound`: returns a value
/// of that range, and panics only when the range is empty, which the
/// precondition rules out.  Which value comes back is left open.
#[verifier::external_body]
pub fn random_below(rng: &mut rand::rngs::ThreadRng, bound: u32) -> (r: u32)
    requires
        bound > 0,
    ensures
        r < bound,
{
    rng.random_range(0..bound)
}

} // verus!
