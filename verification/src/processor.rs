//! The processor: the single "currently executing" slot.
//!
//! Only one execution context exists, so the processor holds at most one
//! task at a time.  The idle control flow (the dispatch loop) is the other
//! side of every context transfer; in this model a transfer is a scheduler
//! decision, so the slot holds the running task's process id.

use vstd::prelude::*;

verus! {

/// Per-core state: the process id of the task currently executing, if any.
pub struct Processor {
    current: Option<usize>,
}

impl Processor {
    /// The currently executing task's process id, if any.
    pub closed spec fn spec_current(&self) -> Option<usize> {
        self.current
    }

    /// An empty processor: nothing is running.
    pub fn new() -> (p: Processor)
        ensures
            p.spec_current() == None::<usize>,
    {
        Processor { current: None }
    }

    /// Removes and returns ownership of the current slot, leaving none.
    pub fn take_current(&mut self) -> (r: Option<usize>)
        ensures
            r == old(self).spec_current(),
            final(self).spec_current() == None::<usize>,
    {
        self.current.take()
    }

    /// The current slot without transferring ownership.
    pub fn current(&self) -> (r: Option<usize>)
        ensures
            r == self.spec_current(),
    {
        self.current
    }

    /// Stores a newly dispatched task in the current slot.
    pub fn set_current(&mut self, pid: usize)
        ensures
            final(self).spec_current() == Some(pid),
    {
        self.current = Some(pid);
    }
}

} // verus!
