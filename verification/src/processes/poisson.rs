//! Homogeneous Poisson process in the natural numbers 0, 1, 2, ...
//!
//! The count increases by one at each arrival; the waiting period between
//! arrivals is drawn from a clock the caller supplies (classically an
//! exponential clock with a fixed rate).

use crate::errors::InvalidState;
use crate::traits::{CMarkovChainTrait, ExponentialClock, RandomIterator, State, StateIterator};
use core::marker::PhantomData;
use vstd::prelude::*;

verus! {

/// Homogeneous Poisson process in the natural numbers.
///
/// Bundles an arrival count, a waiting-period clock and a randomness
/// source. Each step draws one waiting period and counts one arrival.
#[derive(Clone, Debug)]
pub struct Poisson<N, C, R> {
    state: u64,
    clock: C,
    rng: R,
    phantom: PhantomData<N>,
}

impl<N, C, R> Poisson<N, C, R> {
    /// The number of arrivals counted so far.
    pub closed spec fn spec_count(&self) -> u64 {
        self.state
    }

    /// The waiting-period clock.
    pub closed spec fn spec_clock(&self) -> C {
        self.clock
    }
}

impl<N, C, R> Poisson<N, C, R> where C: ExponentialClock<N, R> {
    /// Constructs a new `Poisson` process with no arrival counted yet.
    pub fn new(clock: C, rng: R) -> (r: Self)
        ensures
            r.spec_count() == 0,
            r.spec_clock() == clock,
    {
        Poisson { state: 0, clock, rng, phantom: PhantomData }
    }
}

impl<N, C, R> State for Poisson<N, C, R> {
    type Item = u64;

    /// The counting process has no internal invariant.
    open spec fn spec_wf(&self) -> bool {
        true
    }

    open spec fn spec_state(&self) -> Option<u64> {
        Some(self.spec_count())
    }

    /// Every natural number is a legal arrival count.
    open spec fn spec_valid_state(&self, value: u64) -> bool {
        true
    }

    fn state(&self) -> (r: Option<&u64>)
        ensures
            r is Some,
    {
        Some(&self.state)
    }

    fn state_mut(&mut self) -> Option<&mut u64> {
        Some(&mut self.state)
    }

    fn set_state(&mut self, new_state: u64) -> (r: Result<Option<u64>, InvalidState<u64>>)
        ensures
            final(self).spec_count() == new_state,
            final(self).spec_clock() == old(self).spec_clock(),
            r == Result::<Option<u64>, InvalidState<u64>>::Ok(Some(old(self).spec_count())),
    {
        let previous = self.state;
        self.state = new_state;
        Ok(Some(previous))
    }
}

impl<N, C, R> StateIterator for Poisson<N, C, R> where C: ExponentialClock<N, R>, N: Default {
    type Item = (N, u64);

    /// One arrival: draws a waiting period and counts up by one. `None`
    /// reports a count beyond the machine's naturals, and leaves the count
    /// unchanged.
    fn next(&mut self) -> (r: Option<(N, u64)>)
        ensures
            final(self).spec_clock() == old(self).spec_clock(),
            r matches Some(pv) ==> final(self).spec_count() == pv.1 && pv.1 == old(
                self,
            ).spec_count() + 1,
            r is None <==> old(self).spec_count() == u64::MAX,
            r is None ==> final(self).spec_count() == old(self).spec_count(),
    {
        match self.state.checked_add(1) {
            Some(next_count) => {
                let period = self.clock.sample_period(&mut self.rng);
                self.state = next_count;
                Some((period, next_count))
            },
            None => None,
        }
    }

    /// The current count, paired with the zero period: no time has
    /// elapsed while standing still.
    fn state_as_item(&self) -> (r: Option<(N, u64)>)
        ensures
            r matches Some(pv) ==> pv.1 == self.spec_count(),
            r is Some,
    {
        Some((N::default(), self.state))
    }

    /// The current count (with zero period) first, then the next `steps`
    /// arrivals in order: the k-th element counts exactly k arrivals past
    /// the start. Only the machine's limit on the count can cut the
    /// sequence short.
    #[verifier::loop_isolation(false)]
    fn trajectory(&mut self, steps: usize) -> (r: Vec<(N, u64)>)
        ensures
            1 <= r@.len() <= steps + 1,
            old(self).spec_count() + steps <= u64::MAX ==> r@.len() == steps + 1,
            forall|k: int|
                0 <= k < r@.len() ==> (#[trigger] r@[k]).1 == old(self).spec_count() + k,
            call_ensures(N::default, (), r@[0].0),
            final(self).spec_count() == old(self).spec_count() + r@.len() - 1,
            final(self).spec_clock() == old(self).spec_clock(),
    {
        let mut out: Vec<(N, u64)> = Vec::new();
        out.push((N::default(), self.state));
        let mut i: usize = 0;
        while i < steps
            invariant
                out@.len() == i + 1,
                i <= steps,
                self.spec_count() == old(self).spec_count() + i,
                forall|k: int|
                    0 <= k < out@.len() ==> (#[trigger] out@[k]).1 == old(self).spec_count() + k,
                call_ensures(N::default, (), out@[0].0),
                self.spec_clock() == old(self).spec_clock(),
            decreases steps - i,
        {
            match self.next() {
                Some(item) => {
                    out.push(item);
                },
                None => {
                    return out;
                },
            }
            i = i + 1;
        }
        out
    }
}

impl<N, C, R> CMarkovChainTrait for Poisson<N, C, R> where C: ExponentialClock<N, R>, N: Default {

}

impl<N, C, R> RandomIterator<R> for Poisson<N, C, R> where C: ExponentialClock<N, R> {
    type Item = (N, u64);

    /// Samples a possible next arrival without moving the process.
    fn sample_next(&self, rng: &mut R) -> (r: Option<(N, u64)>)
        ensures
            r matches Some(pv) ==> pv.1 == self.spec_count() + 1,
            r is None <==> self.spec_count() == u64::MAX,
    {
        match self.state.checked_add(1) {
            Some(next_count) => Some((self.clock.sample_period(rng), next_count)),
            None => None,
        }
    }
}

} // verus!
