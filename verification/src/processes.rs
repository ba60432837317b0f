//! Specialized stochastic processes.

pub use self::poisson::Poisson;

mod poisson;
