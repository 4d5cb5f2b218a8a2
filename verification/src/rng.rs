//! Randomness for the emitter, behind a seedable generator so that spawning
//! is reproducible in tests.

use vstd::prelude::*;

verus! {

#[verifier::external_type_specification]
#[verifier::external_body]
pub struct ExStdRng(rand::rngs::StdRng);

/// Relies on rand::SeedableRng::seed_from_u64 for StdRng: constructs a
/// generator from the seed. Nothing is assumed of the values it will yield.
#[verifier::external_body]
pub fn rng_from_seed(seed: u64) -> rand::rngs::StdRng {
    <rand::rngs::StdRng as rand::SeedableRng>::seed_from_u64(seed)
}

/// Relies on rand::Rng::gen_range over `0..n`: it panics on an empty range,
/// and otherwise returns a uniform value below `n`.
#[verifier::external_body]
fn rand_below(rng: &mut rand::rngs::StdRng, n: u64) -> (r: u64)
    requires
        n > 0,
    ensures
        r < n,
{
    rand::Rng::gen_range(rng, 0..n)
}

/// A uniform draw in `[lo, hi)`.
pub fn rand_in_range(rng: &mut rand::rngs::StdRng, lo: i64, hi: i64) -> (r: i64)
    requires
        0 <= lo < hi,
    ensures
        lo <= r < hi,
{
    let d = rand_below(rng, (hi - lo) as u64);
    lo + (d as i64)
}

} // verus!
