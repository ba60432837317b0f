//! Distributions: values sampled on demand from a randomness source.

use vstd::prelude::*;

verus! {

/// A capability that produces one realization of `Self::Item` per call,
/// given a randomness source `R`. Sampling does not change the distribution
/// itself, only the source.
///
/// `None` means the distribution could not produce a value: its listed
/// probabilities did not cover the whole unit interval.
pub trait RandomIterator<R>: Sized {
    type Item;

    fn sample_next(&self, rng: &mut R) -> Option<Self::Item>;
}

} // verus!
