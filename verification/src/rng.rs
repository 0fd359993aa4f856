//! Pseudo-random draws for the stochastic sampling code.
//!
//! Every source of randomness in the tracer draws from an explicit
//! generator value that the caller seeds, so a render with a fixed seed is
//! reproducible and concurrent renders can use independent generators.

use vstd::prelude::*;

verus! {

/// rand's standard seedable generator. The state is opaque here; a value of
/// it only carries the pseudo-random stream through the sampling code.
#[verifier::external_type_specification]
#[verifier::external_body]
pub struct ExStdRng(rand::rngs::StdRng);

/// Relies on rand::SeedableRng::seed_from_u64: the generator's stream is a
/// function of the seed alone.
#[verifier::external_body]
pub(crate) fn rng_from_seed(seed: u64) -> rand::rngs::StdRng {
    <rand::rngs::StdRng as rand::SeedableRng>::seed_from_u64(seed)
}

/// Relies on rand::Rng::next_u32: a uniform 32-bit draw, which read as a
/// Q31.32 raw value is a fixed-point fraction in [0, 1).
#[verifier::external_body]
pub(crate) fn next_fraction(rng: &mut rand::rngs::StdRng) -> (r: i64)
    ensures
        0 <= r < crate::fixed::ONE,
{
    rand::Rng::next_u32(rng) as i64
}

} // verus!
