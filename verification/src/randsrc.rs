//! The explicit, seedable random source handed to the candidate sampler.
//! The generator itself comes from the `rand` crate; this module holds the
//! trusted boundary around it.

use vstd::prelude::*;

verus! {

#[verifier::external_type_specification]
#[verifier::external_body]
pub struct ExStdRng(rand::rngs::StdRng);

/// Relies on `rand::SeedableRng::seed_from_u64`: builds the standard
/// generator from a 64-bit seed. Nothing is assumed about the stream it
/// produces.
#[verifier::external_body]
pub fn seed_rng(seed: u64) -> rand::rngs::StdRng {
    <rand::rngs::StdRng as rand::SeedableRng>::seed_from_u64(seed)
}

/// Relies on `rand::Rng::gen_range` over `0..bound`: returns a value of the
/// half-open range, so strictly below `bound`; it panics on an empty range,
/// which the precondition rules out.
#[verifier::external_body]
pub fn gen_below(rng: &mut rand::rngs::StdRng, bound: usize) -> (r: usize)
    requires
        bound >= 1,
    ensures
        r < bound,
{
    rand::Rng::gen_range(rng, 0..bound)
}

} // verus!
