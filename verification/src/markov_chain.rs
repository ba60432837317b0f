//! Markov Chain in discrete time, with arbitrary space.

use crate::errors::InvalidState;
use crate::random::UniformSource;
use crate::traits::{MarkovChainTrait, RandomIterator, State, StateIterator, Transition};
use vstd::prelude::*;

verus! {

/// Markov Chain in discrete time, with arbitrary space.
///
/// The chain bundles a current state, a transition policy and a randomness
/// source. Every step samples the policy's distribution at the current
/// state and replaces the state with the outcome.
#[derive(Clone, Debug)]
pub struct MarkovChain<T, F, R> {
    state: T,
    transition: F,
    rng: R,
}

impl<T, F, R> MarkovChain<T, F, R> {
    /// The current state.
    pub closed spec fn spec_current(&self) -> T {
        self.state
    }

    /// The transition policy.
    pub closed spec fn spec_transition(&self) -> F {
        self.transition
    }
}

impl<T, F, R> MarkovChain<T, F, R> where F: Transition<T, T, R>, R: UniformSource {
    pub fn new(state: T, transition: F, rng: R) -> (r: Self)
        ensures
            r.spec_current() == state,
            r.spec_transition() == transition,
    {
        MarkovChain { state, transition, rng }
    }
}

impl<T: Clone, F, R> MarkovChain<T, F, R> {
    /// Installs one policy outcome: a produced state replaces the current
    /// one and a copy of it is yielded; no outcome leaves the chain where
    /// it stood and yields nothing. This pins the step for every value the
    /// policy can hand back.
    pub fn step_with(&mut self, outcome: Option<T>) -> (r: Option<T>)
        ensures
            final(self).spec_transition() == old(self).spec_transition(),
            outcome matches Some(s) ==> final(self).spec_current() == s && (r matches Some(v)
                && cloned::<T>(s, v)),
            outcome is None ==> r is None && final(self).spec_current() == old(
                self,
            ).spec_current(),
    {
        match outcome {
            Some(new_state) => {
                self.state = new_state;
                Some(self.state.clone())
            },
            None => None,
        }
    }
}

impl<T: Clone, F, R> State for MarkovChain<T, F, R> {
    type Item = T;

    /// The generic engine has no internal invariant.
    open spec fn spec_wf(&self) -> bool {
        true
    }

    open spec fn spec_state(&self) -> Option<T> {
        Some(self.spec_current())
    }

    /// The generic engine accepts any value of the right type as a state.
    open spec fn spec_valid_state(&self, value: T) -> bool {
        true
    }

    fn state(&self) -> (r: Option<&T>)
        ensures
            r is Some,
    {
        Some(&self.state)
    }

    fn state_mut(&mut self) -> Option<&mut T> {
        Some(&mut self.state)
    }

    /// Swaps the new state in and hands the previous one back; every value
    /// is a legal state for the generic engine.
    fn set_state(&mut self, new_state: T) -> (r: Result<Option<T>, InvalidState<T>>)
        ensures
            final(self).spec_current() == new_state,
            final(self).spec_transition() == old(self).spec_transition(),
            r == Result::<Option<T>, InvalidState<T>>::Ok(Some(old(self).spec_current())),
    {
        let mut previous = new_state;
        core::mem::swap(&mut self.state, &mut previous);
        Ok(Some(previous))
    }
}

impl<T: Clone, F, R> StateIterator for MarkovChain<T, F, R> where
    F: Transition<T, T, R>,
    R: UniformSource,
 {
    type Item = T;

    /// Samples the policy at the current state and installs the outcome
    /// through [`MarkovChain::step_with`], which pins what each outcome
    /// does: a produced state replaces the current one and is yielded,
    /// and where the policy produces nothing the state is left untouched.
    fn next(&mut self) -> (r: Option<T>)
        ensures
            final(self).spec_transition() == old(self).spec_transition(),
            r is None ==> final(self).spec_current() == old(self).spec_current(),
            r matches Some(v) ==> cloned::<T>(final(self).spec_current(), v),
    {
        let outcome = self.transition.sample_from(&self.state, &mut self.rng);
        self.step_with(outcome)
    }

    fn state_as_item(&self) -> (r: Option<T>)
        ensures
            r matches Some(v) ==> cloned::<T>(self.spec_current(), v),
            r is Some,
    {
        Some(self.state.clone())
    }

    /// A copy of the current state first, then the outputs of the next
    /// `steps` steps in order, cut short only if the policy fails.
    #[verifier::loop_isolation(false)]
    fn trajectory(&mut self, steps: usize) -> (r: Vec<T>)
        ensures
            1 <= r@.len() <= steps + 1,
            cloned::<T>(old(self).spec_current(), r@[0]),
            final(self).spec_transition() == old(self).spec_transition(),
    {
        let ghost first = self.spec_current();
        let ghost policy = self.spec_transition();
        let mut out: Vec<T> = Vec::new();
        out.push(self.state.clone());
        let mut i: usize = 0;
        while i < steps
            invariant
                1 <= out@.len() <= i + 1,
                i <= steps,
                cloned::<T>(first, out@[0]),
                self.spec_transition() == policy,
            decreases steps - i,
        {
            match self.next() {
                Some(item) => {
                    out.push(item);
                },
                None => {
                    return out;
                },
            }
            i = i + 1;
        }
        out
    }
}

impl<T: Clone, F, R> MarkovChainTrait for MarkovChain<T, F, R> where
    F: Transition<T, T, R>,
    R: UniformSource,
 {

}

impl<T: Clone, F, R> RandomIterator<R> for MarkovChain<T, F, R> where
    F: Transition<T, T, R>,
    R: UniformSource,
 {
    type Item = T;

    /// Samples a possible next state without moving the chain itself.
    fn sample_next(&self, rng: &mut R) -> (r: Option<T>) {
        self.transition.sample_from(&self.state, rng)
    }
}

} // verus!
