//! Public state of a process.

use crate::errors::InvalidState;
use vstd::prelude::*;

verus! {

/// A struct with a public state.
///
/// `State` should be implemented when it is absolutely clear what a state
/// for the struct means. The state is owned by the process and is changed
/// only by stepping the process or by an explicit [`State::set_state`] call.
pub trait State: Sized {
    type Item;

    /// Well-formedness of the process: what its constructors establish and
    /// all its operations preserve. Trivially true for processes without an
    /// internal invariant.
    spec fn spec_wf(&self) -> bool;

    /// The current state, as the specification sees it.
    spec fn spec_state(&self) -> Option<Self::Item>;

    /// Whether `value` is a legal state assignment for this process.
    spec fn spec_valid_state(&self, value: Self::Item) -> bool;

    /// A mutable view of the current state. Nothing is promised of the
    /// process after the caller wrote through it: a verified caller that
    /// needs the process's invariants afterwards uses [`State::set_state`]
    /// instead.
    fn state_mut(&mut self) -> Option<&mut Self::Item>
        requires
            old(self).spec_wf(),
    ;

    /// A read-only view of the current state.
    fn state(&self) -> (r: Option<&Self::Item>)
        requires
            self.spec_wf(),
        ensures
            match r {
                Some(v) => self.spec_state() == Some(*v),
                None => self.spec_state() is None,
            },
    ;

    /// Changes the state of the struct.
    ///
    /// Succeeds exactly on legal assignments; on success the previous state
    /// is handed back. On failure the process is left untouched and the
    /// error carries the rejected value.
    fn set_state(&mut self, new_state: Self::Item) -> (r: Result<
        Option<Self::Item>,
        InvalidState<Self::Item>,
    >)
        requires
            old(self).spec_wf(),
        ensures
            final(self).spec_wf(),
            r is Ok <==> old(self).spec_valid_state(new_state),
            r matches Err(e) ==> *final(self) == *old(self) && e.spec_state() == new_state,
    ;
}

} // verus!
