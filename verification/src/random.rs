use rand::rngs::StdRng;
use rand::Rng;
use rand::SeedableRng;
use vstd::prelude::*;

verus! {

/// The seedable pseudo-random generator of the `rand` crate. Nothing is known
/// of its state.
#[verifier::external_type_specification]
#[verifier::external_body]
pub struct ExStdRng(StdRng);

/// `StdRng::seed_from_u64`: a generator whose sequence is fixed by `seed`.
/// Nothing is claimed of the generator.
#[verifier::external_body]
pub(crate) fn seeded_generator(seed: u64) -> StdRng {
    StdRng::seed_from_u64(seed)
}

/// `StdRng::from_entropy`: a generator seeded by the operating system.
/// Nothing is claimed of the generator.
#[verifier::external_body]
pub(crate) fn fresh_generator() -> StdRng {
    StdRng::from_entropy()
}

/// `Rng::gen_range` on the half-open range `low..high`, which `rand` refuses
/// when it is empty. The claim is only that the value lies in the range.
#[verifier::external_body]
pub(crate) fn draw_in_range(generator: &mut StdRng, low: u32, high: u32) -> (value: u32)
    requires
        low < high,
    ensures
        low <= value < high,
{
    generator.gen_range(low..high)
}

/// `Rng::gen_ratio`, which `rand` refuses for a zero denominator or a ratio
/// above one. As `rand` documents, the outcome is `true` when the two numbers
/// are equal and `false` when the numerator is zero; nothing else is claimed.
#[verifier::external_body]
pub(crate) fn draw_chance(generator: &mut StdRng, numerator: u32, denominator: u32) -> (outcome:
    bool)
    requires
        0 < denominator,
        numerator <= denominator,
    ensures
        numerator == denominator ==> outcome,
        numerator == 0 ==> !outcome,
{
    generator.gen_ratio(numerator, denominator)
}

} // verus!
