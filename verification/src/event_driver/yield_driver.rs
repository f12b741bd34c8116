//! Yields: nodes that asked to run in the next cycle.
use crate::dispatch::{coherent, offer_all, sched_all};
use crate::graph::Graph;
use crate::scheduler::Scheduler;
use vstd::prelude::*;

verus! {

/// Nodes waiting to be scheduled at the next poll, in request order.
pub struct YieldDriver {
    indices: Vec<usize>,
}

impl YieldDriver {
    /// The waiting node indices, in request order.
    pub closed spec fn waiting(&self) -> Seq<usize> {
        self.indices@
    }

    /// No waiting node.
    pub fn new() -> (y: Self)
        ensures
            y.waiting() == Seq::<usize>::empty(),
    {
        YieldDriver { indices: Vec::new() }
    }

    /// Asks for `node_index` to be scheduled at the next poll.
    pub fn yield_now(&mut self, node_index: usize)
        ensures
            final(self).waiting() == old(self).waiting().push(node_index),
    {
        self.indices.push(node_index);
    }

    /// Number of waiting requests.
    pub fn len(&self) -> (n: usize)
        ensures
            n == self.waiting().len(),
    {
        self.indices.len()
    }

    /// Schedules every waiting node, in request order, each at most once per
    /// `epoch`, and forgets the requests.
    pub fn poll(&mut self, graph: &mut Graph, scheduler: &mut Scheduler, epoch: usize)
        requires
            old(graph).wf(),
            old(scheduler).wf(),
            old(scheduler).current_depth() == 0,
            coherent(old(graph).entries(), old(scheduler).queues()),
            old(scheduler).pending() + old(self).waiting().len() < usize::MAX,
        ensures
            final(self).waiting() == Seq::<usize>::empty(),
            final(graph).wf(),
            final(scheduler).wf(),
            final(scheduler).current_depth() == 0,
            (final(graph).entries(), final(scheduler).queues()) == sched_all(
                (old(graph).entries(), old(scheduler).queues()),
                old(self).waiting(),
                epoch,
            ),
    {
        let mut taken: Vec<usize> = Vec::new();
        std::mem::swap(&mut taken, &mut self.indices);
        offer_all(graph, scheduler, &taken, epoch);
    }
}

} // verus!
