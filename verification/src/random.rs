//! Sources of uniform randomness.
//!
//! Probabilities in this crate are fixed-point numbers: integer numerators
//! over the common denominator [`PROB_SCALE`]. A randomness source hands out
//! uniform draws in the same representation, so sampling logic works on plain
//! integers throughout.

use vstd::prelude::*;

verus! {

/// Number of equal parts the unit interval is divided into. A probability is
/// an integer numerator over this denominator, and a uniform draw from
/// `[0, 1)` is an integer in `[0, PROB_SCALE)`.
pub const PROB_SCALE: u64 = 1_000_000_000;

/// A source of uniform randomness.
///
/// This is the only capability the sampling logic needs from a random number
/// generator: one fresh uniform draw from `[0, 1)` per call, in fixed-point
/// representation. Each process instance owns its source exclusively.
pub trait UniformSource: Sized {
    /// Draws the numerator of a fresh uniform sample from `[0, 1)`.
    fn next_draw(&mut self) -> (r: u64)
        ensures
            r < PROB_SCALE,
    ;
}

#[verifier::external_type_specification]
#[verifier::external_body]
pub struct ExLcg64Xsh32(rand_pcg::Lcg64Xsh32);

/// Relies on `rand_pcg::Lcg64Xsh32`'s derived `Clone`, which copies the
/// generator state field for field, so the copy continues the same sequence.
pub assume_specification[ <rand_pcg::Lcg64Xsh32 as core::clone::Clone>::clone ](
    rng: &rand_pcg::Lcg64Xsh32,
) -> (r: rand_pcg::Lcg64Xsh32)
    ensures
        r == *rng,
;

/// A deterministic, explicitly seeded randomness source backed by a
/// permuted congruential generator.
///
/// Two sources built with the same `state` and `stream` produce the same
/// sequence of draws, which makes runs reproducible.
#[derive(Clone, Debug)]
pub struct Pcg32Source {
    pub(crate) rng: rand_pcg::Lcg64Xsh32,
}

impl Pcg32Source {
    /// Relies on `rand_pcg::Lcg64Xsh32::new`, which builds the generator
    /// deterministically from the given state and stream parameters.
    #[verifier::external_body]
    pub fn new(state: u64, stream: u64) -> Pcg32Source {
        Pcg32Source { rng: rand_pcg::Pcg32::new(state, stream) }
    }

    /// Relies on `rand::Rng::gen_range`, which returns a value inside the
    /// given non-empty range.
    #[verifier::external_body]
    fn draw(&mut self) -> (r: u64)
        ensures
            r < PROB_SCALE,
    {
        rand::Rng::gen_range(&mut self.rng, 0..PROB_SCALE)
    }
}

impl UniformSource for Pcg32Source {
    fn next_draw(&mut self) -> (r: u64)
        ensures
            r < PROB_SCALE,
    {
        self.draw()
    }
}

} // verus!
