//! The engine's random source: a seedable generator supplying uniform
//! integers. Every other random decision (coin flips, weighted choices) is
//! derived from these draws in verified code.

use vstd::prelude::*;
use rand::Rng;
use rand::SeedableRng;

verus! {

#[verifier::external_type_specification]
#[verifier::external_body]
pub struct ExStdRng(rand::rngs::StdRng);

/// Relies on `rand::rngs::StdRng::seed_from_u64` (via `rand::SeedableRng`):
/// builds a generator from a seed. The same seed always yields the same
/// stream at run time, which makes generation reproducible; nothing about
/// the stream is assumed here.
#[verifier::external_body]
pub(crate) fn rng_from_seed(seed: u64) -> rand::rngs::StdRng {
    rand::rngs::StdRng::seed_from_u64(seed)
}

/// Relies on `rand::Rng::gen_range`: returns a uniform sample from the
/// half-open range `lo..hi`, which it documents to lie within the range;
/// it panics on an empty range, so that case is excluded.
#[verifier::external_body]
pub(crate) fn rng_range(rng: &mut rand::rngs::StdRng, lo: i32, hi: i32) -> (r: i32)
    requires
        lo < hi,
    ensures
        lo <= r < hi,
{
    rng.gen_range(lo..hi)
}

} // verus!
