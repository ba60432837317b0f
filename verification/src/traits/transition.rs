//! Abstraction over transition matrices and transition policies.

use vstd::prelude::*;

verus! {

/// Maps a current state to one sampled output.
///
/// The output parameter `O` allows sampling more than only the next state;
/// for example, continuous-time Markov chains sample both a new state and a
/// time step. `R` is the randomness source the policy draws from.
///
/// `None` means the policy could produce no output for this state: the
/// supplied probabilities did not cover the whole unit interval.
pub trait Transition<T, O, R> {
    fn sample_from(&self, state: &T, rng: &mut R) -> Option<O>;
}

} // verus!
