//! The random source of the simulation: a seeded generator, a weighted coin
//! and a uniform draw from a range of integers.

use vstd::prelude::*;
use rand::rngs::StdRng;
use rand::Rng;
use rand::SeedableRng;

verus! {

/// The generator type of the `rand` crate, carried through as an opaque value.
#[verifier::external_type_specification]
#[verifier::external_body]
pub struct ExStdRng(StdRng);

/// Calls `StdRng::seed_from_u64`. Nothing is claimed about the generator that
/// comes back.
#[verifier::external_body]
pub(crate) fn seeded(seed: u64) -> StdRng {
    StdRng::seed_from_u64(seed)
}

/// Calls `Rng::gen_ratio`, which is `true` with probability
/// `numerator / denominator`. The call panics when the denominator is zero or
/// smaller than the numerator, so both are excluded. The outcome is claimed
/// only where the odds leave no choice: never `true` at 0, always at 1.
#[verifier::external_body]
pub(crate) fn roll(rng: &mut StdRng, numerator: u32, denominator: u32) -> (outcome: bool)
    requires
        0 < denominator,
        numerator <= denominator,
    ensures
        numerator == 0 ==> !outcome,
        numerator == denominator ==> outcome,
{
    rng.gen_ratio(numerator, denominator)
}

/// Calls `Rng::gen_range` on the closed range `low..=high`. The call panics on
/// an empty range, which is excluded; the sample lies within the range.
#[verifier::external_body]
pub(crate) fn pick_inclusive(rng: &mut StdRng, low: i32, high: i32) -> (r: i32)
    requires
        low <= high,
    ensures
        low <= r <= high,
{
    rng.gen_range(low..=high)
}

} // verus!
