//! Markers for using the processes of this crate behind common bounds.

use crate::traits::StateIterator;
use vstd::prelude::*;

verus! {

/// Discrete time Markov process.
pub trait MarkovChainTrait: StateIterator {

}

/// Continuous time Markov process.
pub trait CMarkovChainTrait: StateIterator {

}

} // verus!
