//! Multi-depth scheduling queue.
//!
//! One FIFO queue per graph depth. Within a cycle, nodes are handed out from
//! the shallowest non-empty queue at or below the current processing depth,
//! so a node is never handed out before a node of smaller depth that was
//! queued in time.
use std::collections::VecDeque;
use vstd::prelude::*;

verus! {

/// Capacity each newly created depth queue starts with.
pub const INITIAL_CAPACITY: usize = 256;

/// Returned when a node is scheduled above the depth currently processed.
#[derive(Debug, Clone, Copy, PartialEq, Eq, Structural)]
pub struct SchedulerError;

impl SchedulerError {
    /// The error's message.
    pub fn message(&self) -> (s: &'static str)
        ensures
            s@ == "cannot schedule a node above the current processing depth"@,
    {
        "cannot schedule a node above the current processing depth"
    }
}

/// Sum of the lengths of all queues.
pub open spec fn total_len(qs: Seq<Seq<usize>>) -> nat
    decreases qs.len(),
{
    if qs.len() == 0 {
        0
    } else {
        total_len(qs.drop_last()) + qs.last().len()
    }
}

/// The first depth at or after `d` whose queue is non-empty (`qs.len()` if none).
pub open spec fn first_nonempty_from(qs: Seq<Seq<usize>>, d: int) -> int
    decreases qs.len() - d,
{
    if d >= qs.len() {
        qs.len() as int
    } else if d < 0 {
        first_nonempty_from(qs, 0)
    } else if qs[d].len() > 0 {
        d
    } else {
        first_nonempty_from(qs, d + 1)
    }
}

/// A queue of node indices per depth.
#[derive(Debug)]
pub struct Scheduler {
    multi_queue: Vec<VecDeque<usize>>,
    curr_depth: usize,
    pending_events: usize,
}

impl Scheduler {
    /// The queues, shallowest first.
    pub closed spec fn queues(&self) -> Seq<Seq<usize>> {
        self.multi_queue@.map_values(|q: VecDeque<usize>| q@)
    }

    /// The depth currently being processed.
    pub closed spec fn current_depth(&self) -> nat {
        self.curr_depth as nat
    }

    /// The number of queued node indices.
    pub closed spec fn pending(&self) -> nat {
        self.pending_events as nat
    }

    /// Well-formedness: queues above the current depth are drained and the
    /// pending counter is the number of queued entries.
    pub closed spec fn wf(&self) -> bool {
        &&& self.curr_depth <= self.multi_queue@.len()
        &&& forall|d: int| 0 <= d < self.curr_depth ==> #[trigger] self.multi_queue@[d]@.len() == 0
        &&& self.pending_events == total_len(self.queues())
    }

    /// What well-formedness gives callers.
    pub proof fn lemma_wf(&self)
        requires
            self.wf(),
        ensures
            self.pending() == total_len(self.queues()),
            self.current_depth() <= self.queues().len(),
            forall|d: int| 0 <= d < self.current_depth() ==> #[trigger] self.queues()[d].len() == 0,
    {
    }

    /// An empty scheduler with no depth queues.
    pub fn new() -> (s: Self)
        ensures
            s.wf(),
            s.queues() == Seq::<Seq<usize>>::empty(),
            s.current_depth() == 0,
            s.pending() == 0,
    {
        let s = Scheduler { multi_queue: Vec::new(), curr_depth: 0, pending_events: 0 };
        assert(s.queues() =~= Seq::<Seq<usize>>::empty());
        s
    }

    /// Whether any node index is queued.
    pub fn has_pending_event(&self) -> (r: bool)
        ensures
            r == (self.pending() > 0),
    {
        self.pending_events > 0
    }

    /// Number of depth queues.
    pub fn depth_count(&self) -> (n: usize)
        ensures
            n == self.queues().len(),
    {
        self.multi_queue.len()
    }

    /// The depth currently being processed.
    pub fn curr_depth(&self) -> (d: usize)
        ensures
            d == self.current_depth(),
    {
        self.curr_depth
    }

    /// Grows the number of depth queues to `max_depth`, adding empty queues.
    pub fn resize(&mut self, max_depth: u32)
        requires
            old(self).wf(),
            old(self).queues().len() <= max_depth,
        ensures
            final(self).wf(),
            final(self).queues().len() == max_depth,
            final(self).queues().subrange(0, old(self).queues().len() as int) == old(self).queues(),
            forall|d: int|
                old(self).queues().len() <= d < max_depth ==> #[trigger] final(self).queues()[d].len()
                    == 0,
            final(self).current_depth() == old(self).current_depth(),
            final(self).pending() == old(self).pending(),
    {
        let ghost old_qs = self.queues();
        let target = max_depth as usize;
        while self.multi_queue.len() < target
            invariant
                self.wf(),
                self.multi_queue@.len() <= target,
                target == max_depth,
                old_qs.len() <= self.multi_queue@.len(),
                self.queues().subrange(0, old_qs.len() as int) == old_qs,
                forall|d: int|
                    old_qs.len() <= d < self.multi_queue@.len() ==> #[trigger] self.queues()[d].len()
                        == 0,
                self.curr_depth == old(self).curr_depth,
                self.pending_events == old(self).pending_events,
            decreases target - self.multi_queue@.len(),
        {
            let ghost before = self.queues();
            self.multi_queue.push(VecDeque::with_capacity(INITIAL_CAPACITY));
            assert(self.queues() =~= before.push(Seq::<usize>::empty()));
            proof {
                lemma_total_len_push_empty(before);
            }
            assert(self.queues().subrange(0, old_qs.len() as int) =~= before.subrange(
                0,
                old_qs.len() as int,
            ));
        }
    }

    /// Empties every depth queue and goes back to depth 0; the depth queues
    /// themselves stay.
    pub fn clear(&mut self)
        requires
            old(self).wf(),
        ensures
            final(self).wf(),
            final(self).queues().len() == old(self).queues().len(),
            forall|d: int| 0 <= d < final(self).queues().len() ==> #[trigger] final(self).queues()[d].len() == 0,
            final(self).current_depth() == 0,
            final(self).pending() == 0,
    {
        let n = self.multi_queue.len();
        let mut fresh: Vec<VecDeque<usize>> = Vec::new();
        while fresh.len() < n
            invariant
                fresh@.len() <= n,
                forall|d: int| 0 <= d < fresh@.len() ==> #[trigger] fresh@[d]@.len() == 0,
            decreases n - fresh@.len(),
        {
            fresh.push(VecDeque::with_capacity(INITIAL_CAPACITY));
        }
        self.multi_queue = fresh;
        self.curr_depth = 0;
        self.pending_events = 0;
        proof {
            lemma_total_len_zero(self.queues());
        }
    }

    /// Makes sure a queue exists for `depth`.
    pub fn enable_depth(&mut self, depth: u32)
        requires
            old(self).wf(),
            depth < u32::MAX,
        ensures
            final(self).wf(),
            final(self).queues().len() == if old(self).queues().len() <= depth {
                depth + 1
            } else {
                old(self).queues().len() as int
            },
            final(self).queues().subrange(0, old(self).queues().len() as int) == old(self).queues(),
            forall|d: int|
                old(self).queues().len() <= d < final(self).queues().len()
                    ==> #[trigger] final(self).queues()[d].len() == 0,
            final(self).current_depth() == old(self).current_depth(),
            final(self).pending() == old(self).pending(),
    {
        let required_len = depth + 1;
        if self.multi_queue.len() < required_len as usize {
            self.resize(required_len);
        } else {
            assert(self.queues().subrange(0, self.queues().len() as int) =~= self.queues());
        }
    }

    /// Queues `node_index` at `depth`; refused when `depth` is above the
    /// depth currently being processed.
    pub fn schedule(&mut self, node_index: usize, depth: u32) -> (r: Result<(), SchedulerError>)
        requires
            old(self).wf(),
            depth < old(self).queues().len(),
            old(self).pending() < usize::MAX,
        ensures
            final(self).wf(),
            final(self).current_depth() == old(self).current_depth(),
            depth < old(self).current_depth() ==> {
                &&& r is Err
                &&& final(self).queues() == old(self).queues()
                &&& final(self).pending() == old(self).pending()
            },
            depth >= old(self).current_depth() ==> {
                &&& r is Ok
                &&& final(self).queues() == old(self).queues().update(
                    depth as int,
                    old(self).queues()[depth as int].push(node_index),
                )
                &&& final(self).pending() == old(self).pending() + 1
            },
    {
        if (depth as usize) < self.curr_depth {
            return Err(SchedulerError);
        }
        let ghost before = self.queues();
        let d = depth as usize;
        self.multi_queue[d].push_back(node_index);
        assert(self.queues() =~= before.update(d as int, before[d as int].push(node_index)));
        proof {
            lemma_total_len_update(before, d as int, before[d as int].push(node_index));
        }
        self.pending_events = self.pending_events + 1;
        Ok(())
    }

    /// Hands out the front of the shallowest non-empty queue at or after the
    /// current depth, moving the current depth there. When every queue is
    /// empty, returns `None` and resets the current depth to zero.
    pub fn pop(&mut self) -> (r: Option<usize>)
        requires
            old(self).wf(),
        ensures
            final(self).wf(),
            ({
                let qs = old(self).queues();
                let d = first_nonempty_from(qs, old(self).current_depth() as int);
                if d < qs.len() {
                    &&& r == Some(qs[d][0])
                    &&& final(self).queues() == qs.update(d, qs[d].drop_first())
                    &&& final(self).current_depth() == d
                    &&& final(self).pending() == old(self).pending() - 1
                } else {
                    &&& r is None
                    &&& final(self).queues() == qs
                    &&& final(self).current_depth() == 0
                    &&& final(self).pending() == 0
                }
            }),
    {
        let ghost qs0 = self.queues();
        let ghost start = self.curr_depth as int;
        proof {
            lemma_first_nonempty_bounds(qs0, start);
        }
        while self.curr_depth < self.multi_queue.len() && self.pending_events > 0
            invariant
                self.wf(),
                self.queues() == qs0,
                qs0 == old(self).queues(),
                start == old(self).curr_depth,
                start <= self.curr_depth <= qs0.len(),
                first_nonempty_from(qs0, start) == first_nonempty_from(qs0, self.curr_depth as int),
                self.pending_events == old(self).pending_events,
            decreases qs0.len() - self.curr_depth,
        {
            let d = self.curr_depth;
            assert(qs0[d as int] == self.multi_queue@[d as int]@);
            let item = self.multi_queue[d].pop_front();
            match item {
                Some(x) => {
                    assert(qs0[d as int].len() > 0);
                    assert(first_nonempty_from(qs0, d as int) == d);
                    assert(x == qs0[d as int][0]);
                    assert(self.queues() =~= qs0.update(d as int, qs0[d as int].drop_first()));
                    proof {
                        lemma_total_len_update(qs0, d as int, qs0[d as int].drop_first());
                    }
                    self.pending_events = self.pending_events - 1;
                    return Some(x);
                },
                None => {
                    assert(self.queues() =~= qs0);
                    self.curr_depth = self.curr_depth + 1;
                },
            }
        }
        proof {
            if self.pending_events > 0 {
                // every queue is before the current depth, hence empty
                lemma_total_len_zero(qs0);
                assert(false);
            }
            if first_nonempty_from(qs0, self.curr_depth as int) < qs0.len() {
                lemma_first_nonempty_bounds(qs0, self.curr_depth as int);
                lemma_total_len_positive(qs0, first_nonempty_from(qs0, self.curr_depth as int));
            }
        }
        self.curr_depth = 0;
        None
    }
}

/// Appending an empty queue keeps the total length.
pub proof fn lemma_total_len_push_empty(qs: Seq<Seq<usize>>)
    ensures
        total_len(qs.push(Seq::<usize>::empty())) == total_len(qs),
{
    assert(qs.push(Seq::<usize>::empty()).drop_last() =~= qs);
}

/// Replacing one queue changes the total by the difference in lengths.
pub proof fn lemma_total_len_update(qs: Seq<Seq<usize>>, i: int, q: Seq<usize>)
    requires
        0 <= i < qs.len(),
    ensures
        total_len(qs.update(i, q)) == total_len(qs) - qs[i].len() + q.len(),
    decreases qs.len(),
{
    if i == qs.len() - 1 {
        assert(qs.update(i, q).drop_last() =~= qs.drop_last());
    } else {
        lemma_total_len_update(qs.drop_last(), i, q);
        assert(qs.update(i, q).drop_last() =~= qs.drop_last().update(i, q));
    }
}

/// When every queue before `qs.len()` is empty the total is zero.
pub proof fn lemma_total_len_zero(qs: Seq<Seq<usize>>)
    requires
        forall|d: int| 0 <= d < qs.len() ==> #[trigger] qs[d].len() == 0,
    ensures
        total_len(qs) == 0,
    decreases qs.len(),
{
    if qs.len() > 0 {
        lemma_total_len_zero(qs.drop_last());
    }
}

/// A zero total means every queue is empty.
pub proof fn lemma_total_len_zero_rev(qs: Seq<Seq<usize>>)
    requires
        total_len(qs) == 0,
    ensures
        forall|d: int| 0 <= d < qs.len() ==> #[trigger] qs[d].len() == 0,
{
    assert forall|d: int| 0 <= d < qs.len() implies #[trigger] qs[d].len() == 0 by {
        if qs[d].len() > 0 {
            lemma_total_len_positive(qs, d);
        }
    }
}

/// A non-empty queue makes the total positive.
pub proof fn lemma_total_len_positive(qs: Seq<Seq<usize>>, i: int)
    requires
        0 <= i < qs.len(),
        qs[i].len() > 0,
    ensures
        total_len(qs) > 0,
    decreases qs.len(),
{
    if i < qs.len() - 1 {
        lemma_total_len_positive(qs.drop_last(), i);
    }
}

/// `first_nonempty_from` lands on a non-empty queue (or past the end), and
/// every queue it skipped is empty.
pub proof fn lemma_first_nonempty_bounds(qs: Seq<Seq<usize>>, d: int)
    requires
        0 <= d,
    ensures
        d <= first_nonempty_from(qs, d) <= qs.len() || (d > qs.len() && first_nonempty_from(qs, d)
            == qs.len()),
        first_nonempty_from(qs, d) < qs.len() ==> qs[first_nonempty_from(qs, d)].len() > 0,
        forall|e: int| d <= e < first_nonempty_from(qs, d) ==> #[trigger] qs[e].len() == 0,
    decreases qs.len() - d,
{
    if d < qs.len() && qs[d].len() == 0 {
        lemma_first_nonempty_bounds(qs, d + 1);
    }
}

/// A pop hands out a node from the shallowest non-empty queue of all: every
/// queue shallower than the one `pop` takes from is empty, so no queued node
/// is shallower than the node handed out.
pub proof fn law_pop_takes_shallowest(s: &Scheduler)
    requires
        s.wf(),
    ensures
        forall|e: int|
            0 <= e < first_nonempty_from(s.queues(), s.current_depth() as int) ==> #[trigger] s.queues()[e].len()
                == 0,
{
    s.lemma_wf();
    lemma_first_nonempty_bounds(s.queues(), s.current_depth() as int);
}

} // verus!
