//! Ease of use of this crate in general.

pub use crate::distributions::Raw;
pub use crate::random::Pcg32Source;
pub use crate::random::UniformSource;
pub use crate::random::PROB_SCALE;
pub use crate::traits::CMarkovChainTrait;
pub use crate::traits::DistributionOnce;
pub use crate::traits::ExponentialClock;
pub use crate::traits::MarkovChainTrait;
pub use crate::traits::Probability;
pub use crate::traits::RandomIterator;
pub use crate::traits::State;
pub use crate::traits::StateIterator;
pub use crate::traits::Transition;
