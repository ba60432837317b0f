//! Errors of this crate.

use vstd::prelude::*;

verus! {

/// Error returned when a caller tries to assign a value that is not a legal
/// state for the process. It carries the offending value; the caller may
/// recover it and retry with a valid one.
#[derive(Clone, Copy, Debug, Default, Eq, Hash, Ord, PartialEq, PartialOrd)]
pub struct InvalidState<T> {
    state: T,
}

impl<T> InvalidState<T> {
    /// The offending value this error carries.
    pub closed spec fn spec_state(&self) -> T {
        self.state
    }

    pub fn new(state: T) -> (r: Self)
        ensures
            r.spec_state() == state,
    {
        InvalidState { state }
    }

    /// Gives the offending value back to the caller.
    pub fn into_state(self) -> (r: T)
        ensures
            r == self.spec_state(),
    {
        self.state
    }
}

/// Construction-time failure: the given weights cannot form a valid
/// categorical distribution, or the dimensions of the inputs disagree.
/// The object under construction is never created.
#[derive(Clone, Copy, Debug, Eq, PartialEq, Structural)]
pub enum ConstructionError {
    /// A row of the transition structure holds no weights at all.
    EmptyRow,
    /// A row holds more entries than the sampler can index.
    TooManyColumns,
    /// A weight is too large for its row: the row could not be normalised
    /// without overflowing.
    WeightTooLarge,
    /// All weights of a row are zero, so the row has no successor to offer.
    ZeroRowSum,
    /// The transition structure and the state space disagree in size.
    DimensionMismatch,
    /// The state space holds the same value twice, so value lookup would be
    /// ill-defined.
    DuplicateState,
    /// The initial state index lies outside the state space.
    StateIndexOutOfBounds,
}

} // verus!
