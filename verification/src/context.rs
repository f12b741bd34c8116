//! What a node sees of the cycle it runs in.
use vstd::prelude::*;

verus! {

/// The epoch of the running cycle and its trigger time.
pub struct Context {
    current_epoch: usize,
    trigger_time: i128,
}

impl Context {
    /// The epoch of the running cycle.
    pub closed spec fn spec_epoch(&self) -> usize {
        self.current_epoch
    }

    /// The trigger time of the running cycle, in nanoseconds since the
    /// Unix epoch.
    pub closed spec fn spec_trigger_time(&self) -> i128 {
        self.trigger_time
    }

    /// A context at epoch zero and time zero.
    pub fn new() -> (c: Self)
        ensures
            c.spec_epoch() == 0,
            c.spec_trigger_time() == 0,
    {
        Context { current_epoch: 0, trigger_time: 0 }
    }

    /// The trigger time of the running cycle.
    pub fn trigger_time(&self) -> (t: i128)
        ensures
            t == self.spec_trigger_time(),
    {
        self.trigger_time
    }

    /// The epoch of the running cycle.
    pub fn epoch(&self) -> (e: usize)
        ensures
            e == self.spec_epoch(),
    {
        self.current_epoch
    }

    /// Sets the trigger time of the running cycle.
    pub fn set_trigger_time(&mut self, t: i128)
        ensures
            final(self).spec_trigger_time() == t,
            final(self).spec_epoch() == old(self).spec_epoch(),
    {
        self.trigger_time = t;
    }

    /// Whether a node whose last change happened in `mutated_epoch` changed
    /// in the running cycle.
    pub fn has_mutated(&self, mutated_epoch: usize) -> (b: bool)
        ensures
            b == (mutated_epoch == self.spec_epoch()),
    {
        mutated_epoch == self.current_epoch
    }

    /// Moves on to the next epoch, wrapping around after the largest.
    pub fn increment_epoch(&mut self)
        ensures
            final(self).spec_epoch() == old(self).spec_epoch().wrapping_add(1),
            final(self).spec_trigger_time() == old(self).spec_trigger_time(),
    {
        self.current_epoch = self.current_epoch.wrapping_add(1);
    }
}

} // verus!
