//! Deferred removal of nodes at the end of a cycle.
use std::collections::VecDeque;
use vstd::prelude::*;

verus! {

/// Node indices marked for removal, in marking order.
#[derive(Debug)]
pub struct GarbageCollector {
    removal_queue: VecDeque<usize>,
}

impl GarbageCollector {
    /// The marked node indices, oldest first.
    pub closed spec fn marked(&self) -> Seq<usize> {
        self.removal_queue@
    }

    /// Nothing marked.
    pub fn new() -> (g: Self)
        ensures
            g.marked() == Seq::<usize>::empty(),
    {
        GarbageCollector { removal_queue: VecDeque::new() }
    }

    /// Marks `node` for removal after the current cycle.
    pub fn mark_for_sweep(&mut self, node: usize)
        ensures
            final(self).marked() == old(self).marked().push(node),
    {
        self.removal_queue.push_back(node);
    }

    /// Takes the oldest marked node index.
    pub fn next_to_sweep(&mut self) -> (r: Option<usize>)
        ensures
            old(self).marked().len() == 0 ==> r is None && final(self).marked() == old(self).marked(),
            old(self).marked().len() > 0 ==> r == Some(old(self).marked()[0]) && final(self).marked() == old(self).marked().drop_first(),
    {
        self.removal_queue.pop_front()
    }

    /// Number of marked node indices.
    pub fn len(&self) -> (n: usize)
        ensures
            n == self.marked().len(),
    {
        self.removal_queue.len()
    }
}

} // verus!
