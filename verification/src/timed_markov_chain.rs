//! Markov Chain in continuous time, with arbitrary space.

use crate::errors::InvalidState;
use crate::random::UniformSource;
use crate::traits::{CMarkovChainTrait, State, StateIterator, Transition};
use core::marker::PhantomData;
use vstd::prelude::*;

verus! {

/// Relies on `PhantomData`'s `Clone`: a phantom marker has a single value,
/// so the copy equals the original.
pub assume_specification<T>[ <PhantomData<T> as core::clone::Clone>::clone ](
    p: &PhantomData<T>,
) -> (r: PhantomData<T>) where T: core::marker::PointeeSized
    ensures
        r == *p,
;

/// Markov Chain in continuous time, with arbitrary space.
///
/// Each step samples a distribution over (elapsed period, next state)
/// pairs: the state is replaced and the period is yielded but not stored.
/// More than only exponential periods are allowed: the transition policy
/// decides how periods are produced.
#[derive(Clone, Debug)]
pub struct TimedMarkovChain<N, T, F, R> {
    state: T,
    transition: F,
    rng: R,
    phantom: PhantomData<N>,
}

impl<N, T, F, R> TimedMarkovChain<N, T, F, R> {
    /// The current state.
    pub closed spec fn spec_current(&self) -> T {
        self.state
    }

    /// The transition policy.
    pub closed spec fn spec_transition(&self) -> F {
        self.transition
    }
}

impl<N, T, F, R> TimedMarkovChain<N, T, F, R> where
    F: Transition<T, (N, T), R>,
    R: UniformSource,
    N: Default,
 {
    pub fn new(state: T, transition: F, rng: R) -> (r: Self)
        ensures
            r.spec_current() == state,
            r.spec_transition() == transition,
    {
        TimedMarkovChain { state, transition, rng, phantom: PhantomData }
    }
}

impl<N, T: Clone, F, R> TimedMarkovChain<N, T, F, R> {
    /// Installs one policy outcome: a produced pair replaces the state by
    /// its state component and is yielded with its period untouched; no
    /// outcome leaves the chain where it stood and yields nothing. This
    /// pins the step, period included, for every value the policy can
    /// hand back.
    pub fn step_with(&mut self, outcome: Option<(N, T)>) -> (r: Option<(N, T)>)
        ensures
            final(self).spec_transition() == old(self).spec_transition(),
            outcome matches Some(pv) ==> final(self).spec_current() == pv.1 && (r matches Some(
                out,
            ) && out.0 == pv.0 && cloned::<T>(pv.1, out.1)),
            outcome is None ==> r is None && final(self).spec_current() == old(
                self,
            ).spec_current(),
    {
        match outcome {
            Some((period, new_state)) => {
                self.state = new_state;
                Some((period, self.state.clone()))
            },
            None => None,
        }
    }
}

impl<N, T: Clone, F, R> State for TimedMarkovChain<N, T, F, R> {
    type Item = T;

    /// The generic engine has no internal invariant.
    open spec fn spec_wf(&self) -> bool {
        true
    }

    open spec fn spec_state(&self) -> Option<T> {
        Some(self.spec_current())
    }

    /// The generic engine accepts any value of the right type as a state.
    open spec fn spec_valid_state(&self, value: T) -> bool {
        true
    }

    fn state(&self) -> (r: Option<&T>)
        ensures
            r is Some,
    {
        Some(&self.state)
    }

    fn state_mut(&mut self) -> Option<&mut T> {
        Some(&mut self.state)
    }

    /// Swaps the new state in and hands the previous one back; every value
    /// is a legal state for the generic engine.
    fn set_state(&mut self, new_state: T) -> (r: Result<Option<T>, InvalidState<T>>)
        ensures
            final(self).spec_current() == new_state,
            final(self).spec_transition() == old(self).spec_transition(),
            r == Result::<Option<T>, InvalidState<T>>::Ok(Some(old(self).spec_current())),
    {
        let mut previous = new_state;
        core::mem::swap(&mut self.state, &mut previous);
        Ok(Some(previous))
    }
}

impl<N, T: Clone, F, R> StateIterator for TimedMarkovChain<N, T, F, R> where
    F: Transition<T, (N, T), R>,
    R: UniformSource,
    N: Default,
 {
    type Item = (N, T);

    /// Samples an (elapsed period, next state) pair at the current state
    /// and installs it through [`TimedMarkovChain::step_with`], which pins
    /// what each outcome does: the state is replaced and the sampled
    /// period is yielded unchanged together with a copy of the new state.
    /// Where the policy produces no output the state is left untouched.
    fn next(&mut self) -> (r: Option<(N, T)>)
        ensures
            final(self).spec_transition() == old(self).spec_transition(),
            r is None ==> final(self).spec_current() == old(self).spec_current(),
            r matches Some(pv) ==> cloned::<T>(final(self).spec_current(), pv.1),
    {
        let outcome = self.transition.sample_from(&self.state, &mut self.rng);
        self.step_with(outcome)
    }

    /// The current state, paired with the zero period: no time has elapsed
    /// while standing still.
    fn state_as_item(&self) -> (r: Option<(N, T)>)
        ensures
            r matches Some(pv) ==> cloned::<T>(self.spec_current(), pv.1) && call_ensures(
                N::default,
                (),
                pv.0,
            ),
            r is Some,
    {
        Some((N::default(), self.state.clone()))
    }

    /// The current state (with zero period) first, then the outputs of the
    /// next `steps` steps in order, cut short only if the policy fails.
    #[verifier::loop_isolation(false)]
    fn trajectory(&mut self, steps: usize) -> (r: Vec<(N, T)>)
        ensures
            1 <= r@.len() <= steps + 1,
            cloned::<T>(old(self).spec_current(), r@[0].1),
            call_ensures(N::default, (), r@[0].0),
            final(self).spec_transition() == old(self).spec_transition(),
    {
        let ghost first = self.spec_current();
        let ghost policy = self.spec_transition();
        let mut out: Vec<(N, T)> = Vec::new();
        out.push((N::default(), self.state.clone()));
        let mut i: usize = 0;
        while i < steps
            invariant
                1 <= out@.len() <= i + 1,
                i <= steps,
                cloned::<T>(first, out@[0].1),
                call_ensures(N::default, (), out@[0].0),
                self.spec_transition() == policy,
            decreases steps - i,
        {
            match self.next() {
                Some(item) => {
                    out.push(item);
                },
                None => {
                    return out;
                },
            }
            i = i + 1;
        }
        out
    }
}

impl<N, T: Clone, F, R> CMarkovChainTrait for TimedMarkovChain<N, T, F, R> where
    F: Transition<T, (N, T), R>,
    R: UniformSource,
    N: Default,
 {

}

} // verus!
