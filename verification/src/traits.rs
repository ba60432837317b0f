//! Traits for implementing your own stochastic processes and distributions.

pub use self::distribution_once::DistributionOnce;
pub use self::exponential_clock::ExponentialClock;
pub use self::markers::CMarkovChainTrait;
pub use self::markers::MarkovChainTrait;
pub use self::probability::Probability;
pub use self::random_iterator::RandomIterator;
pub use self::state::State;
pub use self::state_iterator::StateIterator;
pub use self::transition::Transition;

mod distribution_once;
mod exponential_clock;
mod markers;
mod probability;
mod random_iterator;
mod state;
mod state_iterator;
mod transition;
