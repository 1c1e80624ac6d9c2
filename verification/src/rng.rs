//! Trusted boundary to the `rand` crate: a seeded generator and the single
//! draw the grid initializer needs.

use vstd::prelude::*;
use rand::Rng;
use rand::SeedableRng;

verus! {

/// Declares rand's `StdRng` so that a generator can be threaded through
/// verified code; its state stays opaque.
#[verifier::external_type_specification]
#[verifier::external_body]
pub struct ExStdRng(rand::rngs::StdRng);

/// Relies on rand's `StdRng::seed_from_u64`: builds a generator whose stream
/// is a function of the seed alone. Nothing is assumed of the values drawn.
#[verifier::external_body]
pub(crate) fn rng_from_seed(seed: u64) -> rand::rngs::StdRng {
    rand::rngs::StdRng::seed_from_u64(seed)
}

/// Relies on rand's `Rng::gen_ratio`: returns true with probability
/// `numer / denom`; in particular never true at ratio 0 and always true at
/// ratio 1. Panics on a zero denominator or a numerator above it, so those
/// are excluded here.
#[verifier::external_body]
pub(crate) fn rng_ratio(rng: &mut rand::rngs::StdRng, numer: u32, denom: u32) -> (r: bool)
    requires
        denom >= 1,
        numer <= denom,
    ensures
        numer == 0 ==> !r,
        numer == denom ==> r,
{
    rng.gen_ratio(numer, denom)
}

} // verus!
