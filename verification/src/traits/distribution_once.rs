//! Distributions that are consumed by sampling.

use vstd::prelude::*;

verus! {

/// A distribution that can be used only once to create a random value of
/// `T`: sampling consumes it. A repeatable distribution offers
/// [`crate::traits::RandomIterator`] instead; which of the two a producer
/// can honestly offer is part of its design.
pub trait DistributionOnce<T, R>: Sized {
    /// Generates one random value, using `rng` as the source of
    /// randomness.
    fn sample_once(self, rng: &mut R) -> Option<T>;
}

} // verus!
