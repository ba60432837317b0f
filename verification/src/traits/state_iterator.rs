//! Stepping a process and viewing its state as part of the step sequence.

use crate::traits::State;
use vstd::prelude::*;

verus! {

/// A process that is stepped one transition at a time and whose internal
/// state can be seen as the "initial" element of the step sequence.
pub trait StateIterator: State + Sized {
    /// What one step of the process yields. For a discrete-time chain this
    /// is the new state; continuous-time variants also yield a period.
    type Item;

    /// One step: sample a transition, update the state in place and yield
    /// what was produced. `None` means the process has disappeared, which
    /// signals a broken probability model, not a clean termination.
    fn next(&mut self) -> (r: Option<<Self as StateIterator>::Item>)
        requires
            old(self).spec_wf(),
        ensures
            final(self).spec_wf(),
    ;

    /// The current state seen as an item of the step sequence.
    fn state_as_item(&self) -> (r: Option<<Self as StateIterator>::Item>)
        requires
            self.spec_wf(),
    ;

    /// The state as it stood before any step, followed by the outputs of the
    /// next `steps` steps, in order, with nothing skipped or repeated. The
    /// sequence is cut short only if the process disappears.
    fn trajectory(&mut self, steps: usize) -> (r: Vec<<Self as StateIterator>::Item>)
        requires
            old(self).spec_wf(),
        ensures
            final(self).spec_wf(),
            r@.len() <= steps + 1,
    ;
}

} // verus!
