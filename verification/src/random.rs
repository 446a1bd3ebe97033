//! Trusted boundary to the `rand` crate.
//!
//! The RND operation needs a byte stream; the machine keeps an injected,
//! seedable generator so that runs are reproducible.  Nothing is promised
//! of the generated values: everything the machine does with one is
//! verified for every possible value.

use vstd::prelude::*;

verus! {

#[verifier::external_type_specification]
#[verifier::external_body]
pub struct ExStdRng(rand::rngs::StdRng);

/// Relies on `rand::SeedableRng::seed_from_u64` for `StdRng`: builds a
/// generator from the seed.  No promise is made about its output.
#[verifier::external_body]
pub fn rng_from_seed(seed: u64) -> (rng: rand::rngs::StdRng) {
    <rand::rngs::StdRng as rand::SeedableRng>::seed_from_u64(seed)
}

/// Relies on `rand::Rng::next_u32` for `StdRng`: yields the generator's
/// next word.  No promise is made about the value.
#[verifier::external_body]
pub fn next_word(rng: &mut rand::rngs::StdRng) -> (word: u32) {
    rand::Rng::next_u32(rng)
}

} // verus!
