//! Clocks that produce random waiting periods.

use vstd::prelude::*;

verus! {

/// A capability that produces one random waiting period per call, drawn
/// from the clock's own distribution (classically an exponential one).
///
/// The period type `N` is opaque to the engine: periods are yielded to the
/// caller and never inspected, so a clock may hand out whatever its
/// implementor measures time in.
pub trait ExponentialClock<N, R> {
    fn sample_period(&self, rng: &mut R) -> N;
}

} // verus!
