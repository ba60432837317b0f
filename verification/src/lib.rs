//! Simulation of (sub-)stochastic processes.
//!
//! Processes are built from an initial state, a transition policy and an
//! explicitly seeded randomness source, and are then stepped one transition
//! at a time. Probabilities are fixed-point numbers: integer numerators over
//! the common denominator [`random::PROB_SCALE`].
//!
//! Verified code never panics, so the one unrecoverable condition of the
//! error model — a cumulative scan exhausting its list because the listed
//! probabilities do not cover the unit interval — surfaces as `None` from
//! sampling, and the engines propagate it as a step that produces nothing
//! and leaves the state untouched. Callers treat it as the fatal signal of
//! a broken probability model, not as a recoverable outcome.

pub use self::errors::ConstructionError;
pub use self::errors::InvalidState;
pub use self::random::Pcg32Source;
pub use self::random::UniformSource;
pub use self::random::PROB_SCALE;

pub use self::traits::CMarkovChainTrait;
pub use self::traits::DistributionOnce;
pub use self::traits::ExponentialClock;
pub use self::traits::MarkovChainTrait;
pub use self::traits::Probability;
pub use self::traits::RandomIterator;
pub use self::traits::State;
pub use self::traits::StateIterator;
pub use self::traits::Transition;

pub use self::branching_process::BranchingProcess;
pub use self::continuous_finite_markov_chain::ContFiniteMarkovChain;
pub use self::finite_markov_chain::FiniteMarkovChain;
pub use self::markov_chain::MarkovChain;
pub use self::timed_markov_chain::TimedMarkovChain;

pub mod alias;
pub mod branching_process;
pub mod continuous_finite_markov_chain;
pub mod distributions;
pub mod errors;
pub mod finite_markov_chain;
pub mod graph;
pub mod markov_chain;
pub mod prelude;
pub mod processes;
pub mod random;
pub mod reachability;
pub mod timed_markov_chain;
pub mod traits;
