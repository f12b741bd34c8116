//! The executor: the computation graph, the depth scheduler, the event
//! sources and the garbage collector, driven one step at a time.
//!
//! A cycle is `begin_cycle` (new epoch; notifications, yields and expired
//! timers are scheduled), then `schedule_io` for the I/O events the
//! embedding loop collected, then `next_node` / `complete_node` until
//! `next_node` returns `None`, then `end_cycle`, which removes the nodes
//! marked for sweeping (again after each mark, while dropping the removed
//! nodes' code lets go of others). When a node answers `Terminate`, the
//! cycle ends with `stop_cycle` instead: nothing more runs and nothing is
//! swept. The embedding loop runs each node's behaviour between
//! `next_node` and `complete_node` and reports its [`Control`].
use crate::clock::Clock;
use crate::dispatch::{coherent, offer, offer_all, queued_once, sched_all, settled, sweep_all, sweep_offer_all, unqueued};
use crate::event_driver::timer_driver::TimerSource;
use crate::event_driver::{effective_timeout, fired_timers, timers_fired, EventDriver, EventDriverConfig, ExecutionMode, PollPlan};
use crate::garbage_collector::GarbageCollector;
use crate::graph::{entries_without, trigger_targets, Graph, GraphEntries, NodeContext};
use crate::scheduler::{Scheduler, SchedulerError};
use crate::{Control, ExecutorState, Relationship};
use vstd::prelude::*;

verus! {

/// Highest depth a parent may have for a child to be added below it.
pub open spec fn max_parent_depth(parents: Seq<(usize, u32, Relationship)>) -> int
    decreases parents.len(),
{
    if parents.len() == 0 {
        -1
    } else {
        let m = max_parent_depth(parents.drop_last());
        if parents.last().1 as int > m {
            parents.last().1 as int
        } else {
            m
        }
    }
}

/// Depth of a node with these parents: one more than the deepest parent, 0
/// without parents.
pub open spec fn depth_below(parents: Seq<(usize, u32, Relationship)>) -> int {
    max_parent_depth(parents) + 1
}

/// The graph's new edges for a node `i` with these parents, as they appear
/// in the parents' outgoing lists.
pub open spec fn with_parent_edges(
    g: GraphEntries,
    parents: Seq<(usize, u32, Relationship)>,
    i: usize,
) -> GraphEntries
    decreases parents.len(),
{
    if parents.len() == 0 {
        g
    } else {
        let g1 = with_parent_edges(g, parents.drop_last(), i);
        let p = parents.last();
        g1.insert(p.0, (g1[p.0].0, seq![(i, p.2)] + g1[p.0].1))
    }
}

/// Runs the graph: owns nodes' scheduling state; the embedding loop owns
/// their behaviour.
pub struct Executor {
    graph: Graph,
    scheduler: Scheduler,
    event_driver: EventDriver,
    gc: GarbageCollector,
    epoch: usize,
    current: Option<usize>,
}

impl Executor {
    /// The graph's live nodes with their metadata and outgoing edges.
    pub closed spec fn entries(&self) -> GraphEntries {
        self.graph.entries()
    }

    /// The scheduler's queues, shallowest first.
    pub closed spec fn queues(&self) -> Seq<Seq<usize>> {
        self.scheduler.queues()
    }

    /// The depth being processed.
    pub closed spec fn processing_depth(&self) -> nat {
        self.scheduler.current_depth()
    }

    /// Number of queued node indices.
    pub closed spec fn pending(&self) -> nat {
        self.scheduler.pending()
    }

    /// The current epoch.
    pub closed spec fn spec_epoch(&self) -> usize {
        self.epoch
    }

    /// The node handed out by `next_node` and not yet completed.
    pub closed spec fn running(&self) -> Option<usize> {
        self.current
    }

    /// The number of edges in the graph.
    pub closed spec fn edge_count(&self) -> nat {
        self.graph.edge_count()
    }

    /// Nodes marked for removal at the end of the cycle.
    pub closed spec fn marked(&self) -> Seq<usize> {
        self.gc.marked()
    }

    /// The event sources.
    pub closed spec fn events(&self) -> EventDriver {
        self.event_driver
    }

    /// Well-formedness: the parts are well formed and agree (every edge leads
    /// deeper, every depth has a queue, every queued index is a live node at
    /// its depth), and the running node is live at the processing depth.
    pub closed spec fn wf(&self) -> bool {
        &&& self.graph.wf()
        &&& self.scheduler.wf()
        &&& self.event_driver.wf()
        &&& coherent(self.graph.entries(), self.scheduler.queues())
        &&& (self.current matches Some(x) ==> self.graph.has(x) && self.graph.ctx(x).depth
            == self.scheduler.current_depth())
    }

    /// An executor with the default event driver options.
    pub fn new(mode: ExecutionMode) -> (e: Self)
        ensures
            e.wf(),
            e.entries() == GraphEntries::empty(),
            e.queues().len() == 0,
            e.edge_count() == 0,
            e.spec_epoch() == 0,
            e.running() is None,
            e.marked().len() == 0,
            e.events().yields().len() == 0,
            e.events().spec_mode() == mode,
            e.events().limit() == 16,
            e.events().io_on(),
            e.events().timers() matches Some(t) && t.timers().len() == 0 && t.next_id() == 0,
    {
        Self::with_config(EventDriverConfig::default_config(), mode)
    }

    /// An executor with the given event driver options.
    pub fn with_config(cfg: EventDriverConfig, mode: ExecutionMode) -> (e: Self)
        requires
            0 < cfg.notification_capacity,
            cfg.notification_capacity < 0x8000_0000_0000_0000,
        ensures
            e.wf(),
            e.entries() == GraphEntries::empty(),
            e.queues().len() == 0,
            e.edge_count() == 0,
            e.spec_epoch() == 0,
            e.running() is None,
            e.marked().len() == 0,
            e.events().yields().len() == 0,
            e.events().spec_mode() == mode,
            e.events().limit() == cfg.poll_limit,
            e.events().io_on() == cfg.io_enabled,
            e.events().timers() is Some == cfg.timer_enabled,
            cfg.timer_enabled ==> (e.events().timers() matches Some(t) && t.timers().len() == 0
                && t.next_id() == 0),
    {
        let e = Executor {
            graph: Graph::new(),
            scheduler: Scheduler::new(),
            event_driver: EventDriver::with_config(cfg, mode),
            gc: GarbageCollector::new(),
            epoch: 0,
            current: None,
        };
        e
    }

    /// The current epoch.
    pub fn epoch(&self) -> (e: usize)
        ensures
            e == self.spec_epoch(),
    {
        self.epoch
    }

    /// The node currently running, if any.
    pub fn current(&self) -> (c: Option<usize>)
        ensures
            c == self.running(),
    {
        self.current
    }

    /// Whether node `a` broadcast a change in the current epoch.
    pub fn has_mutated(&self, a: usize) -> (b: bool)
        requires
            self.wf(),
        ensures
            b == (self.entries().dom().contains(a) && self.entries()[a].0.mut_epoch
                == self.spec_epoch()),
    {
        match self.graph.node(a) {
            Some(c) => c.mut_epoch == self.epoch,
            None => false,
        }
    }

    /// The depth of node `a`, `None` when it is not a node.
    pub fn node_depth(&self, a: usize) -> (r: Option<u32>)
        requires
            self.wf(),
        ensures
            self.entries().dom().contains(a) ==> r == Some(self.entries()[a].0.depth),
            !self.entries().dom().contains(a) ==> r is None,
    {
        match self.graph.node(a) {
            Some(c) => Some(c.depth),
            None => None,
        }
    }

    /// Whether node `a` is live and poisoned.
    pub fn is_poisoned(&self, a: usize) -> (b: bool)
        requires
            self.wf(),
        ensures
            b == (self.entries().dom().contains(a) && self.entries()[a].0.poisoned),
    {
        match self.graph.node(a) {
            Some(c) => c.poisoned,
            None => false,
        }
    }

    /// The number of live nodes.
    pub fn node_count(&self) -> (n: usize)
        requires
            self.wf(),
        ensures
            n == self.entries().dom().len(),
    {
        self.graph.node_count()
    }

    /// Another handle to the queue of notified nodes, which other threads
    /// push node indices into.
    pub fn notification_handle(&self) -> (r: std::sync::Arc<crossbeam_queue::ArrayQueue<usize>>)
        ensures
            r == self.events().notifications(),
    {
        self.event_driver.notification_handle()
    }

    /// Whether timers are enabled.
    pub fn timers_enabled(&self) -> (b: bool)
        ensures
            b == (self.events().timers() is Some),
    {
        self.event_driver.timers_enabled()
    }

    /// Whether any node is queued.
    pub fn has_pending(&self) -> (b: bool)
        ensures
            b == (self.pending() > 0),
    {
        self.scheduler.has_pending_event()
    }

    /// Asks for node `a` to be scheduled in the next cycle.
    pub fn yield_now(&mut self, a: usize)
        requires
            old(self).wf(),
        ensures
            final(self).wf(),
            final(self).events().yields() == old(self).events().yields().push(a),
            final(self).entries() == old(self).entries(),
            final(self).queues() == old(self).queues(),
    {
        self.event_driver.yield_now(a);
    }

    /// Registers a timer that schedules node `a` once the cycle time reaches
    /// `when`.
    pub fn register_timer(&mut self, a: usize, when: u128) -> (s: TimerSource)
        requires
            old(self).wf(),
            old(self).events().timers() is Some,
        ensures
            final(self).wf(),
            final(self).events().timers() is Some,
            s == (TimerSource { when, id: old(self).events().timers().unwrap().next_id() }),
            crate::event_driver::timer_driver::registered(old(self).events().timers().unwrap().timers(), final(self).events().timers().unwrap().timers(), s, a),
            final(self).events().timers().unwrap().next_id() == old(self).events().timers().unwrap().next_id().wrapping_add(1),
            final(self).events().yields() == old(self).events().yields(),
            final(self).marked() == old(self).marked(),
            final(self).entries() == old(self).entries(),
            final(self).queues() == old(self).queues(),
    {
        self.event_driver.register_timer(a, when)
    }

    /// Cancels a timer.
    pub fn deregister_timer(&mut self, s: TimerSource)
        requires
            old(self).wf(),
            old(self).events().timers() is Some,
        ensures
            final(self).wf(),
            final(self).events().timers() is Some,
            crate::event_driver::timer_driver::deregistered(old(self).events().timers().unwrap().timers(), final(self).events().timers().unwrap().timers(), s),
            final(self).events().yields() == old(self).events().yields(),
            final(self).marked() == old(self).marked(),
            final(self).entries() == old(self).entries(),
            final(self).queues() == old(self).queues(),
    {
        self.event_driver.deregister_timer(s);
    }

    /// The deadline of the earliest timer.
    pub fn next_timer(&self) -> (r: Option<u128>)
        requires
            self.wf(),
        ensures
            r == self.events().next_deadline(),
    {
        self.event_driver.next_timer()
    }

    /// Marks node `a` for removal at the end of the cycle.
    pub fn mark_for_sweep(&mut self, a: usize)
        requires
            old(self).wf(),
        ensures
            final(self).wf(),
            final(self).marked() == old(self).marked().push(a),
            final(self).entries() == old(self).entries(),
            final(self).queues() == old(self).queues(),
    {
        self.gc.mark_for_sweep(a);
    }

    /// Adds a node below `parents` (index, depth, relationship of each) and
    /// returns its index. Its depth is one more than the deepest parent's (0
    /// without parents); an edge from each parent, in order, is added. The
    /// flag is false when the graph ran out of edge indices before every edge
    /// was added: it is true exactly when the graph has room for one more
    /// edge per parent.
    pub fn insert_node(&mut self, parents: &Vec<(usize, u32, Relationship)>) -> (r: (usize, bool))
        requires
            old(self).wf(),
            old(self).entries().dom().len() < u32::MAX,
            forall|i: int|
                0 <= i < parents@.len() ==> {
                    &&& old(self).entries().dom().contains(#[trigger] parents@[i].0)
                    &&& old(self).entries()[parents@[i].0].0.depth == parents@[i].1
                },
            depth_below(parents@) < u32::MAX,
        ensures
            final(self).wf(),
            !old(self).entries().dom().contains(r.0),
            r.1 ==> final(self).entries() == with_parent_edges(
                old(self).entries().insert(
                    r.0,
                    (NodeContext::spec_new(depth_below(parents@) as u32), Seq::empty()),
                ),
                parents@,
                r.0,
            ),
            final(self).entries().dom() == old(self).entries().dom().insert(r.0),
            final(self).entries()[r.0].0 == NodeContext::spec_new(depth_below(parents@) as u32),
            r.1 == (parents@.len() == 0 || old(self).edge_count() + parents@.len() <= u32::MAX),
            r.1 ==> final(self).edge_count() == old(self).edge_count() + parents@.len(),
            final(self).queues().len() >= old(self).queues().len(),
            final(self).spec_epoch() == old(self).spec_epoch(),
            final(self).running() == old(self).running(),
            final(self).pending() == old(self).pending(),
    {
        let mut depth: u32 = 0;
        let mut k: usize = 0;
        while k < parents.len()
            invariant
                0 <= k <= parents@.len(),
                depth == depth_below(parents@.subrange(0, k as int)),
                depth_below(parents@) < u32::MAX,
            decreases parents@.len() - k,
        {
            proof {
                assert(parents@.subrange(0, k + 1).drop_last() =~= parents@.subrange(0, k as int));
                lemma_max_parent_depth_prefix(parents@, k + 1);
            }
            if parents[k].1 >= depth {
                depth = parents[k].1 + 1;
            }
            k = k + 1;
        }
        proof {
            assert(parents@.subrange(0, parents@.len() as int) =~= parents@);
        }
        let ghost q0 = self.scheduler.queues();
        self.scheduler.enable_depth(depth);
        proof {
            crate::dispatch::lemma_extend_queues(self.graph.entries(), q0, self.scheduler.queues());
        }
        let ghost g0 = self.graph.entries();
        let idx = self.graph.add_node(NodeContext::new(depth));
        proof {
            lemma_add_node_coherent(g0, self.scheduler.queues(), idx, depth);
        }
        let mut ok = true;
        let mut j: usize = 0;
        while j < parents.len()
            invariant
                0 <= j <= parents@.len(),
                self.graph.wf(),
                self.scheduler.wf(),
                self.event_driver.wf(),
                self.scheduler.queues().len() > depth,
                self.scheduler.current_depth() == old(self).scheduler.current_depth(),
                self.scheduler.pending() == old(self).scheduler.pending(),
                self.scheduler.queues().len() >= old(self).scheduler.queues().len(),
                self.current == old(self).current,
                self.epoch == old(self).epoch,
                self.gc == old(self).gc,
                self.event_driver == old(self).event_driver,
                !g0.dom().contains(idx),
                depth == depth_below(parents@),
                forall|i: int|
                    0 <= i < parents@.len() ==> {
                        &&& g0.dom().contains(#[trigger] parents@[i].0)
                        &&& g0[parents@[i].0].0.depth == parents@[i].1
                    },
                coherent(self.graph.entries(), self.scheduler.queues()),
                self.graph.entries().dom() == g0.dom().insert(idx),
                self.graph.entries()[idx].0 == NodeContext::spec_new(depth),
                forall|x: usize| #[trigger] g0.dom().contains(x) ==> self.graph.entries()[x].0
                    == g0[x].0,
                ok ==> self.graph.entries() == with_parent_edges(
                    g0.insert(idx, (NodeContext::spec_new(depth), Seq::empty())),
                    parents@.subrange(0, j as int),
                    idx,
                ),
                ok == (j == 0 || old(self).graph.edge_count() + j <= u32::MAX),
                ok ==> self.graph.edge_count() == old(self).graph.edge_count() + j,
                !ok ==> self.graph.edge_count() >= u32::MAX,
                old(self).current matches Some(x) ==> g0.dom().contains(x) && g0[x].0.depth
                    == self.scheduler.current_depth(),
            decreases parents@.len() - j,
        {
            let (p, pd, rel) = parents[j];
            proof {
                lemma_max_parent_depth_bound(parents@, j as int);
            }
            let ghost before = self.graph.entries();
            let added = self.graph.add_edge(p, idx, rel);
            proof {
                crate::dispatch::lemma_add_edge(before, self.scheduler.queues(), p, idx, rel);
                assert(self.graph.entries().dom() =~= before.dom());
                assert(parents@.subrange(0, j + 1).drop_last() =~= parents@.subrange(0, j as int));
            }
            if !added {
                ok = false;
            }
            j = j + 1;
        }
        proof {
            assert(parents@.subrange(0, parents@.len() as int) =~= parents@);
        }
        (idx, ok)
    }

    /// Queues node `a` (whose depth is `depth`) directly, bypassing the
    /// once-per-epoch check; refused when `depth` is above the depth being
    /// processed.
    pub fn schedule_node(&mut self, a: usize, depth: u32) -> (r: Result<(), SchedulerError>)
        requires
            old(self).wf(),
            old(self).entries().dom().contains(a),
            old(self).entries()[a].0.depth == depth,
            old(self).pending() < usize::MAX,
        ensures
            final(self).wf(),
            final(self).entries() == old(self).entries(),
            depth < old(self).processing_depth() ==> r is Err && final(self).queues() == old(
                self).queues(),
            depth >= old(self).processing_depth() ==> r is Ok && final(self).queues() == old(
                self).queues().update(depth as int, old(self).queues()[depth as int].push(a)),
    {
        proof {
            self.scheduler.lemma_wf();
        }
        let r = self.scheduler.schedule(a, depth);
        proof {
            let qs = old(self).queues();
            let q2 = self.scheduler.queues();
            if depth >= old(self).processing_depth() {
                assert forall|d: int, i: int| 0 <= d < q2.len() && 0 <= i < q2[d].len() implies {
                    &&& self.graph.entries().dom().contains(q2[d][i])
                    &&& self.graph.entries()[q2[d][i]].0.depth == d
                } by {
                    if !(d == depth && i == qs[d].len()) {
                        assert(q2[d][i] == qs[d][i]);
                    }
                }
            }
        }
        r
    }

    /// Starts a cycle: advances the epoch (wrapping around), then schedules
    /// notified nodes, reads the clock, schedules yielded nodes and nodes of
    /// expired timers, and says how the I/O driver is to be polled.
    pub fn begin_cycle<C: Clock>(&mut self, clock: &mut C, timeout: Option<u128>) -> (plan:
        PollPlan)
        requires
            old(self).wf(),
            old(self).processing_depth() == 0,
            old(self).running() is None,
            old(self).pending() + old(self).events().limit() + old(self).events().yields().len()
                + old(self).events().timer_count() < usize::MAX,
        ensures
            final(self).wf(),
            final(self).processing_depth() == 0,
            final(self).running() is None,
            final(self).spec_epoch() == old(self).spec_epoch().wrapping_add(1),
            final(self).events().yields().len() == 0,
            final(self).events().limit() == old(self).events().limit(),
            final(self).events().spec_mode() == old(self).events().spec_mode(),
            final(self).events().io_on() == old(self).events().io_on(),
            final(self).marked() == old(self).marked(),
            plan.poll_io == old(self).events().io_on(),
            (final(self).pending() > 0 || timeout == Some(0u128)) ==> {
                &&& plan.io_timeout == Some(0u128)
                &&& !plan.refresh_time
            },
            !(final(self).pending() > 0 || timeout == Some(0u128)) ==> {
                &&& plan.io_timeout == effective_timeout(
                    final(self).events().timers() is Some,
                    final(self).events().next_deadline(),
                    timeout,
                    plan.cycle_time.instant_nanos(),
                )
                &&& plan.refresh_time == (old(self).events().io_on() && old(
                    self,
                ).events().spec_mode() is Park && plan.io_timeout != Some(0u128))
            },
            exists|notified: Seq<usize>|
                notified.len() <= old(self).events().limit() && (final(self).entries(), final(self).queues()) == sched_all(
                    sched_all(
                        sched_all(
                            (old(self).entries(), old(self).queues()),
                            notified,
                            final(self).spec_epoch(),
                        ),
                        old(self).events().yields(),
                        final(self).spec_epoch(),
                    ),
                    fired_timers(old(self).events().timers(), final(self).events().timers()),
                    final(self).spec_epoch(),
                ),
            old(self).events().timers() matches Some(t) ==> final(self).events().timers() matches Some(u)
                && timers_fired(t, u, plan.cycle_time.instant_nanos()),
            old(self).events().timers() is None ==> final(self).events().timers() is None,
            old(self).pending() == 0 ==> queued_once(final(self).entries(), final(self).queues(), final(self).spec_epoch()),
    {
        self.epoch = self.epoch.wrapping_add(1);
        let epoch = self.epoch;
        proof {
            self.scheduler.lemma_wf();
        }
        let ghost s0 = (self.graph.entries(), self.scheduler.queues());
        let ghost y0 = self.event_driver.yields();
        let ghost lim = self.event_driver.limit();
        let plan = self.event_driver.poll(
            &mut self.graph,
            &mut self.scheduler,
            clock,
            timeout,
            epoch,
        );
        proof {
            if old(self).pending() == 0 {
                crate::scheduler::lemma_total_len_zero_rev(s0.1);
                assert(queued_once(s0.0, s0.1, epoch));
                let tv = fired_timers(old(self).events().timers(), self.event_driver.timers());
                let notified = choose|notified: Seq<usize>|
                    notified.len() <= lim && (self.graph.entries(), self.scheduler.queues()) == sched_all(
                        sched_all(sched_all(s0, notified, epoch), y0, epoch),
                        tv,
                        epoch,
                    );
                let s1 = sched_all(s0, notified, epoch);
                let s2 = sched_all(s1, y0, epoch);
                crate::dispatch::lemma_sched_all_total(s0, notified, epoch);
                crate::dispatch::lemma_offers_queue_once(s0, notified, epoch, false);
                crate::dispatch::lemma_sched_all_total(s1, y0, epoch);
                crate::dispatch::lemma_offers_queue_once(s1, y0, epoch, false);
                crate::dispatch::lemma_offers_queue_once(s2, tv, epoch, false);
            }
        }
        plan
    }

    /// Schedules the nodes the I/O driver reported ready, in order.
    pub fn schedule_io(&mut self, ready: &Vec<usize>)
        requires
            old(self).wf(),
            old(self).processing_depth() == 0,
            old(self).running() is None,
            old(self).pending() + ready@.len() < usize::MAX,
        ensures
            final(self).wf(),
            final(self).processing_depth() == 0,
            final(self).running() is None,
            (final(self).entries(), final(self).queues()) == sched_all(
                (old(self).entries(), old(self).queues()),
                ready@,
                old(self).spec_epoch(),
            ),
            final(self).spec_epoch() == old(self).spec_epoch(),
            queued_once(old(self).entries(), old(self).queues(), old(self).spec_epoch()) ==> queued_once(
                final(self).entries(),
                final(self).queues(),
                final(self).spec_epoch(),
            ),
    {
        proof {
            self.scheduler.lemma_wf();
            if queued_once(self.graph.entries(), self.scheduler.queues(), self.epoch) {
                crate::dispatch::lemma_offers_queue_once((self.graph.entries(), self.scheduler.queues()), ready@, self.epoch, false);
            }
            crate::dispatch::lemma_sched_all_total(
                (self.graph.entries(), self.scheduler.queues()),
                ready@,
                self.epoch,
            );
        }
        offer_all(&mut self.graph, &mut self.scheduler, ready, self.epoch);
    }

    /// Hands out the next node to run: the front of the shallowest non-empty
    /// queue at or below the processing depth. `None` when every queue is
    /// empty, which also resets the processing depth.
    pub fn next_node(&mut self) -> (r: Option<usize>)
        requires
            old(self).wf(),
            old(self).running() is None,
        ensures
            final(self).wf(),
            final(self).running() == r,
            final(self).entries() == old(self).entries(),
            final(self).spec_epoch() == old(self).spec_epoch(),
            ({
                let qs = old(self).queues();
                let d = crate::scheduler::first_nonempty_from(qs, old(self).processing_depth() as int);
                if d < qs.len() {
                    &&& r == Some(qs[d][0])
                    &&& final(self).queues() == qs.update(d, qs[d].drop_first())
                    &&& final(self).processing_depth() == d
                    &&& old(self).entries()[qs[d][0]].0.depth == d
                } else {
                    &&& r is None
                    &&& final(self).queues() == qs
                    &&& final(self).processing_depth() == 0
                    &&& final(self).pending() == 0
                }
            }),
    {
        let ghost qs = self.scheduler.queues();
        proof {
            crate::scheduler::lemma_first_nonempty_bounds(qs, self.scheduler.current_depth() as int);
        }
        let r = self.scheduler.pop();
        proof {
            let q2 = self.scheduler.queues();
            let d = crate::scheduler::first_nonempty_from(qs, old(self).scheduler.current_depth() as int);
            if d < qs.len() {
                assert(qs[d][0] == qs[d][0]);
                assert forall|dd: int, i: int| 0 <= dd < q2.len() && 0 <= i < q2[dd].len() implies {
                    &&& self.graph.entries().dom().contains(q2[dd][i])
                    &&& self.graph.entries()[q2[dd][i]].0.depth == dd
                } by {
                    if dd == d {
                        assert(q2[dd][i] == qs[dd][i + 1]);
                    } else {
                        assert(q2[dd][i] == qs[dd][i]);
                    }
                }
            }
        }
        self.current = r;
        r
    }

    /// Completes the running node with its answer. A poisoned node counts as
    /// answering `Sweep`. `Broadcast` records the change and schedules every
    /// `Trigger` child (each at most once per epoch); `Sweep` marks the node
    /// for removal and poisons and schedules every child; `Terminate` stops
    /// the runtime; `Unchanged` does nothing more. Without a running node
    /// nothing happens.
    pub fn complete_node(&mut self, control: Control) -> (state: ExecutorState)
        requires
            old(self).wf(),
            old(self).running() matches Some(a) ==> old(self).pending()
                + old(self).entries()[a].1.len() < usize::MAX,
        ensures
            final(self).wf(),
            final(self).running() is None,
            final(self).spec_epoch() == old(self).spec_epoch(),
            final(self).processing_depth() == old(self).processing_depth(),
            old(self).running() is None ==> {
                &&& state is Running
                &&& final(self).entries() == old(self).entries()
                &&& final(self).queues() == old(self).queues()
                &&& final(self).marked() == old(self).marked()
            },
            old(self).running() matches Some(a) ==> {
                let g = old(self).entries();
                let c = g[a].0;
                let effective = if c.poisoned {
                    Control::Sweep
                } else {
                    control
                };
                &&& (effective is Terminate ==> state is Terminated)
                &&& (!(effective is Terminate) ==> state is Running)
                &&& (effective is Broadcast ==> (final(self).entries(), final(self).queues())
                    == sched_all(
                    (g.insert(a, (NodeContext { mut_epoch: old(self).spec_epoch(), ..c }, g[a].1)), old(self).queues()),
                    trigger_targets(g[a].1),
                    old(self).spec_epoch(),
                ) && final(self).marked() == old(self).marked())
                &&& (effective is Sweep ==> (final(self).entries(), final(self).queues())
                    == sweep_all(
                    (g, old(self).queues()),
                    g[a].1.map_values(|e: (usize, Relationship)| e.0),
                    old(self).spec_epoch(),
                ) && final(self).marked() == old(self).marked().push(a))
                &&& ((effective is Unchanged || effective is Terminate) ==> final(self).entries()
                    == g && final(self).queues() == old(self).queues() && final(self).marked()
                    == old(self).marked())
            },
    {
        let a = match self.current {
            Some(a) => a,
            None => {
                return ExecutorState::Running;
            },
        };
        self.current = None;
        let c = self.graph.node(a).unwrap();
        let effective = if c.poisoned {
            Control::Sweep
        } else {
            control
        };
        proof {
            self.scheduler.lemma_wf();
        }
        match effective {
            Control::Broadcast => {
                let ghost g = self.graph.entries();
                self.graph.set_node(a, NodeContext { mut_epoch: self.epoch, ..c });
                proof {
                    crate::dispatch::lemma_reweight(
                        g,
                        self.scheduler.queues(),
                        a,
                        NodeContext { mut_epoch: self.epoch, ..c },
                    );
                }
                let children = self.graph.triggering_edges(a);
                proof {
                    lemma_trigger_targets_deeper(self.graph.entries(), a);
                    crate::graph::lemma_trigger_targets_len(g[a].1);
                }
                offer_all(&mut self.graph, &mut self.scheduler, &children, self.epoch);
                ExecutorState::Running
            },
            Control::Unchanged => ExecutorState::Running,
            Control::Terminate => ExecutorState::Terminated,
            Control::Sweep => {
                self.gc.mark_for_sweep(a);
                let children = self.graph.edges(a);
                proof {
                    let g = self.graph.entries();
                    assert forall|i: int|
                        0 <= i < children@.len() && self.graph.has(
                            #[trigger] children@[i],
                        ) implies self.scheduler.current_depth() <= self.graph.ctx(
                        children@[i],
                    ).depth by {
                        assert(g[a].1[i] == g[a].1[i]);
                    }
                }
                sweep_offer_all(&mut self.graph, &mut self.scheduler, &children, self.epoch);
                ExecutorState::Running
            },
        }
    }

    /// Stops the cycle after a node asked to terminate: the nodes still
    /// queued are dropped unrun, nothing is swept, and the executor is left
    /// idle at depth 0 with its graph and marks as they were.
    pub fn stop_cycle(&mut self)
        requires
            old(self).wf(),
        ensures
            final(self).wf(),
            final(self).running() is None,
            final(self).processing_depth() == 0,
            final(self).pending() == 0,
            final(self).queues().len() == old(self).queues().len(),
            forall|d: int| 0 <= d < final(self).queues().len() ==> #[trigger] final(self).queues()[d].len() == 0,
            final(self).entries() == old(self).entries(),
            final(self).marked() == old(self).marked(),
            final(self).edge_count() == old(self).edge_count(),
            final(self).spec_epoch() == old(self).spec_epoch(),
            final(self).events() == old(self).events(),
    {
        self.scheduler.clear();
        self.current = None;
        proof {
            assert(crate::dispatch::queued_live(self.graph.entries(), self.scheduler.queues()));
        }
    }

    /// Ends a cycle: removes every node marked for sweeping (with its
    /// edges) and returns them in marking order.
    pub fn end_cycle(&mut self) -> (removed: Vec<usize>)
        requires
            old(self).wf(),
            old(self).pending() == 0,
            old(self).running() is None,
        ensures
            final(self).wf(),
            removed@ == old(self).marked(),
            final(self).marked().len() == 0,
            final(self).entries() == remove_all(old(self).entries(), old(self).marked()),
            final(self).queues() == old(self).queues(),
            final(self).spec_epoch() == old(self).spec_epoch(),
            final(self).running() is None,
    {
        proof {
            self.scheduler.lemma_wf();
            crate::scheduler::lemma_total_len_zero_rev(self.scheduler.queues());
        }
        let ghost marked0 = self.gc.marked();
        let ghost g0 = self.graph.entries();
        let mut removed: Vec<usize> = Vec::new();
        while self.gc.len() > 0
            invariant
                self.graph.wf(),
                self.scheduler.wf(),
                self.event_driver.wf(),
                self.scheduler == old(self).scheduler,
                self.event_driver == old(self).event_driver,
                self.epoch == old(self).epoch,
                self.current is None,
                forall|d: int| 0 <= d < self.scheduler.queues().len() ==> #[trigger] self.scheduler.queues()[d].len() == 0,
                coherent(self.graph.entries(), self.scheduler.queues()),
                removed@ + self.gc.marked() == marked0,
                self.graph.entries() == remove_all(g0, removed@),
            decreases self.gc.marked().len(),
        {
            let n = self.gc.next_to_sweep().unwrap();
            let ghost before = self.graph.entries();
            self.graph.remove_node(n);
            proof {
                if before.dom().contains(n) {
                    crate::dispatch::lemma_remove(before, self.scheduler.queues(), n);
                }
                assert(removed@.push(n) + self.gc.marked() =~= marked0);
                assert(removed@.push(n).drop_last() =~= removed@);
            }
            removed.push(n);
        }
        proof {
            assert(removed@ + Seq::<usize>::empty() =~= removed@);
        }
        removed
    }
}

/// Execution follows the graph: every edge of a well-formed executor leads
/// from a node to a strictly deeper one, so a child is handed out after its
/// parents within a cycle.
pub proof fn law_children_are_deeper(e: &Executor, a: usize, i: int)
    requires
        e.wf(),
        e.entries().dom().contains(a),
        0 <= i < e.entries()[a].1.len(),
    ensures
        e.entries().dom().contains(e.entries()[a].1[i].0),
        e.entries()[e.entries()[a].1[i].0].0.depth > e.entries()[a].0.depth,
{
    assert(e.entries()[a].1[i] == e.entries()[a].1[i]);
}

/// Parents run before their children within a cycle: no queued node is
/// shallower than the depth being processed (and `next_node` hands out the
/// shallowest queued one, while the running node's children are all deeper
/// than it, see [`law_children_are_deeper`]).
pub proof fn law_no_queued_node_above_processing_depth(e: &Executor)
    requires
        e.wf(),
    ensures
        forall|d: int, i: int|
            #![trigger e.queues()[d][i]]
            0 <= d < e.queues().len() && 0 <= i < e.queues()[d].len() ==> d >= e.processing_depth(),
{
    e.scheduler.lemma_wf();
    assert forall|d: int, i: int|
        #![trigger e.queues()[d][i]]
        0 <= d < e.queues().len() && 0 <= i < e.queues()[d].len() implies d >= e.processing_depth() by {
        if d < e.processing_depth() {
            assert(e.queues()[d].len() == 0);
        }
    }
}

/// What completing node `a` in `epoch` does to the graph entries and the
/// queues, as `complete_node` states it for each answer: nothing
/// (`Unchanged`, `Terminate`), record the change and offer the `Trigger`
/// children (`Broadcast`), or poison and offer every child (`Sweep`).
pub open spec fn completion(
    g: GraphEntries,
    qs: Seq<Seq<usize>>,
    a: usize,
    epoch: usize,
    g2: GraphEntries,
    qs2: Seq<Seq<usize>>,
) -> bool {
    let c = g[a].0;
    ||| (g2, qs2) == (g, qs)
    ||| (g2, qs2) == sched_all(
        (g.insert(a, (NodeContext { mut_epoch: epoch, ..c }, g[a].1)), qs),
        trigger_targets(g[a].1),
        epoch,
    )
    ||| (g2, qs2) == sweep_all((g, qs), g[a].1.map_values(|e: (usize, Relationship)| e.0), epoch)
}

/// One node run within a cycle, as `next_node` and then `complete_node`
/// state it: `before` hands out `a`, the front of the shallowest non-empty
/// queue at or below its processing depth, which becomes the processing
/// depth of `after`; completing `a` then leads to `after`.
pub open spec fn cycle_step(before: Executor, a: usize, after: Executor) -> bool {
    let qs = before.queues();
    let d = crate::scheduler::first_nonempty_from(qs, before.processing_depth() as int);
    &&& d < qs.len()
    &&& a == qs[d][0]
    &&& after.processing_depth() == d
    &&& after.spec_epoch() == before.spec_epoch()
    &&& completion(
        before.entries(),
        qs.update(d, qs[d].drop_first()),
        a,
        before.spec_epoch(),
        after.entries(),
        after.queues(),
    )
}

/// Completing a node keeps a node that is settled in the epoch and queued
/// nowhere that way.
proof fn lemma_completion_keeps_out(
    g: GraphEntries,
    qs: Seq<Seq<usize>>,
    a: usize,
    epoch: usize,
    g2: GraphEntries,
    qs2: Seq<Seq<usize>>,
    x: usize,
)
    requires
        coherent(g, qs),
        g.dom().contains(a),
        settled(g, x, epoch),
        unqueued(qs, x),
        completion(g, qs, a, epoch, g2, qs2),
    ensures
        settled(g2, x, epoch),
        unqueued(qs2, x),
{
    let c = g[a].0;
    let grw = g.insert(a, (NodeContext { mut_epoch: epoch, ..c }, g[a].1));
    if (g2, qs2) == (g, qs) {
    } else if (g2, qs2) == sched_all((grw, qs), trigger_targets(g[a].1), epoch) {
        crate::dispatch::lemma_reweight(g, qs, a, NodeContext { mut_epoch: epoch, ..c });
        assert(settled(grw, x, epoch));
        crate::dispatch::law_settled_node_never_queued_again((grw, qs), trigger_targets(g[a].1), epoch, x, false);
        crate::dispatch::lemma_grows_keeps_unqueued(qs, qs2, x);
    } else {
        let items = g[a].1.map_values(|e: (usize, Relationship)| e.0);
        crate::dispatch::law_settled_node_never_queued_again((g, qs), items, epoch, x, true);
        crate::dispatch::lemma_grows_keeps_unqueued(qs, qs2, x);
    }
}

/// Completing a node keeps every queued node scheduled in the epoch and
/// queued once.
proof fn lemma_completion_once(
    g: GraphEntries,
    qs: Seq<Seq<usize>>,
    a: usize,
    epoch: usize,
    g2: GraphEntries,
    qs2: Seq<Seq<usize>>,
)
    requires
        coherent(g, qs),
        queued_once(g, qs, epoch),
        g.dom().contains(a),
        completion(g, qs, a, epoch, g2, qs2),
    ensures
        queued_once(g2, qs2, epoch),
{
    let c = g[a].0;
    let grw = g.insert(a, (NodeContext { mut_epoch: epoch, ..c }, g[a].1));
    if (g2, qs2) == (g, qs) {
    } else if (g2, qs2) == sched_all((grw, qs), trigger_targets(g[a].1), epoch) {
        crate::dispatch::lemma_reweight(g, qs, a, NodeContext { mut_epoch: epoch, ..c });
        assert forall|d: int, i: int| 0 <= d < qs.len() && 0 <= i < qs[d].len() implies #[trigger] grw[qs[d][i]].0.sched_epoch == epoch by {
            assert(g[qs[d][i]].0.sched_epoch == epoch);
        }
        crate::dispatch::lemma_offers_queue_once((grw, qs), trigger_targets(g[a].1), epoch, false);
    } else {
        let items = g[a].1.map_values(|e: (usize, Relationship)| e.0);
        crate::dispatch::lemma_offers_queue_once((g, qs), items, epoch, true);
    }
}

/// Taking the front of the queue at depth `d` leaves the rest queued once,
/// the taken node queued nowhere, and the invariants in place.
proof fn lemma_pop_front(g: GraphEntries, qs: Seq<Seq<usize>>, d: int, epoch: usize)
    requires
        coherent(g, qs),
        queued_once(g, qs, epoch),
        0 <= d < qs.len(),
        qs[d].len() > 0,
    ensures
        coherent(g, qs.update(d, qs[d].drop_first())),
        queued_once(g, qs.update(d, qs[d].drop_first()), epoch),
        unqueued(qs.update(d, qs[d].drop_first()), qs[d][0]),
        g.dom().contains(qs[d][0]),
        g[qs[d][0]].0.depth == d,
        settled(g, qs[d][0], epoch),
        forall|x: usize| unqueued(qs, x) ==> unqueued(qs.update(d, qs[d].drop_first()), x),
{
    let q1 = qs.update(d, qs[d].drop_first());
    let a = qs[d][0];
    assert(g[qs[d][0]].0.sched_epoch == epoch);
    assert forall|e: int, i: int| 0 <= e < q1.len() && 0 <= i < q1[e].len() implies {
        &&& g.dom().contains(#[trigger] q1[e][i])
        &&& g[q1[e][i]].0.depth == e
        &&& g[q1[e][i]].0.sched_epoch == epoch
        &&& q1[e][i] != a
    } by {
        if e == d {
            assert(q1[e][i] == qs[d][i + 1]);
            assert(qs[d][0] != qs[d][i + 1]);
        } else {
            assert(q1[e][i] == qs[e][i]);
        }
    }
    assert forall|e: int, i: int, j: int| 0 <= e < q1.len() && 0 <= i < j < q1[e].len() implies #[trigger] q1[e][i] != #[trigger] q1[e][j] by {
        if e == d {
            assert(qs[d][i + 1] != qs[d][j + 1]);
        }
    }
    assert forall|x: usize| unqueued(qs, x) implies unqueued(q1, x) by {
        assert forall|e: int, i: int| 0 <= e < q1.len() && 0 <= i < q1[e].len() implies #[trigger] q1[e][i] != x by {
            if e == d {
                assert(q1[e][i] == qs[d][i + 1]);
            } else {
                assert(q1[e][i] == qs[e][i]);
            }
        }
    }
}

/// A cycle runs every node at most once and in order of depth, so a parent
/// that runs does so before its children. Given executors `states` where
/// each runs the node `ran[i]` to get the next (see [`cycle_step`]), and the
/// first holds each queued node once, scheduled in its epoch (as
/// `begin_cycle` leaves it when the queues were empty, and `schedule_io`
/// keeps it): no node is run twice, and the depths of the nodes run, each
/// the processing depth after its step, never decrease. Queuing a node
/// directly with `schedule_node` bypasses the epoch check and is not such a
/// step.
pub proof fn law_cycle_runs_each_node_once_by_depth(states: Seq<Executor>, ran: Seq<usize>)
    requires
        states.len() == ran.len() + 1,
        forall|i: int| 0 <= i < states.len() ==> (#[trigger] states[i]).wf(),
        queued_once(states[0].entries(), states[0].queues(), states[0].spec_epoch()),
        forall|i: int| 0 <= i < ran.len() ==> cycle_step(states[i], #[trigger] ran[i], states[i + 1]),
    ensures
        forall|i: int, j: int| 0 <= i < j < ran.len() ==> #[trigger] ran[i] != #[trigger] ran[j],
        forall|i: int| 0 <= i < ran.len() ==> #[trigger] states[i].entries()[ran[i]].0.depth
            == states[i + 1].processing_depth(),
        forall|i: int, j: int|
            0 <= i < j < ran.len() ==> #[trigger] states[i + 1].processing_depth()
                <= #[trigger] states[j + 1].processing_depth(),
{
    lemma_cycle_prefix(states, ran, ran.len() as int);
}

proof fn lemma_cycle_prefix(states: Seq<Executor>, ran: Seq<usize>, n: int)
    requires
        states.len() == ran.len() + 1,
        0 <= n <= ran.len(),
        forall|i: int| 0 <= i < states.len() ==> (#[trigger] states[i]).wf(),
        queued_once(states[0].entries(), states[0].queues(), states[0].spec_epoch()),
        forall|i: int| 0 <= i < ran.len() ==> cycle_step(states[i], #[trigger] ran[i], states[i + 1]),
    ensures
        states[n].spec_epoch() == states[0].spec_epoch(),
        queued_once(states[n].entries(), states[n].queues(), states[0].spec_epoch()),
        forall|k: int| 0 <= k < n ==> settled(states[n].entries(), #[trigger] ran[k], states[0].spec_epoch())
            && unqueued(states[n].queues(), ran[k]),
        forall|i: int, j: int| 0 <= i < j < n ==> #[trigger] ran[i] != #[trigger] ran[j],
        forall|i: int| 0 <= i < n ==> #[trigger] states[i].entries()[ran[i]].0.depth
            == states[i + 1].processing_depth(),
        forall|i: int| 0 <= i < n ==> #[trigger] states[i + 1].processing_depth() <= states[n].processing_depth(),
        forall|i: int, j: int|
            0 <= i < j < n ==> #[trigger] states[i + 1].processing_depth()
                <= #[trigger] states[j + 1].processing_depth(),
    decreases n,
{
    if n > 0 {
        let m = n - 1;
        lemma_cycle_prefix(states, ran, m);
        let s = states[m];
        let t = states[n];
        let a = ran[m];
        let e = states[0].spec_epoch();
        assert(s.wf());
        assert(t.wf());
        assert(cycle_step(s, a, t));
        let qs = s.queues();
        let g = s.entries();
        let d = crate::scheduler::first_nonempty_from(qs, s.processing_depth() as int);
        crate::scheduler::lemma_first_nonempty_bounds(qs, s.processing_depth() as int);
        let q1 = qs.update(d, qs[d].drop_first());
        lemma_pop_front(g, qs, d, e);
        lemma_completion_once(g, q1, a, e, t.entries(), t.queues());
        assert forall|k: int| 0 <= k < n implies settled(t.entries(), #[trigger] ran[k], e) && unqueued(t.queues(), ran[k]) by {
            if k < m {
                assert(unqueued(q1, ran[k]));
            }
            lemma_completion_keeps_out(g, q1, a, e, t.entries(), t.queues(), ran[k]);
        }
        assert forall|i: int, j: int| 0 <= i < j < n implies #[trigger] ran[i] != #[trigger] ran[j] by {
            if j == m {
                assert(unqueued(qs, ran[i]));
                assert(qs[d][0] == a);
            }
        }
    }
}

/// The entries after removing every node of `items`, in order.
pub open spec fn remove_all(g: GraphEntries, items: Seq<usize>) -> GraphEntries
    decreases items.len(),
{
    if items.len() == 0 {
        g
    } else {
        let g1 = remove_all(g, items.drop_last());
        if g1.dom().contains(items.last()) {
            entries_without(g1, items.last())
        } else {
            g1
        }
    }
}

/// Every `Trigger` child of `a` is live and deeper than `a`.
pub proof fn lemma_trigger_targets_deeper(g: GraphEntries, a: usize)
    requires
        crate::dispatch::edges_deepen(g),
        g.dom().contains(a),
    ensures
        forall|i: int|
            0 <= i < trigger_targets(g[a].1).len() ==> g.dom().contains(
                #[trigger] trigger_targets(g[a].1)[i],
            ) && g[trigger_targets(g[a].1)[i]].0.depth > g[a].0.depth,
{
    assert forall|i: int| 0 <= i < trigger_targets(g[a].1).len() implies g.dom().contains(
        #[trigger] trigger_targets(g[a].1)[i],
    ) && g[trigger_targets(g[a].1)[i]].0.depth > g[a].0.depth by {
        crate::graph::lemma_trigger_targets_from(g[a].1, i);
        let j = choose|j: int| 0 <= j < g[a].1.len() && #[trigger] g[a].1[j].0 == trigger_targets(g[a].1)[i] && g[a].1[j].1 is Trigger;
        assert(g[a].1[j] == g[a].1[j]);
    }
}

/// A prefix's deepest parent is no deeper than the whole list's.
pub proof fn lemma_max_parent_depth_prefix(ps: Seq<(usize, u32, Relationship)>, k: int)
    requires
        0 <= k <= ps.len(),
    ensures
        max_parent_depth(ps.subrange(0, k)) <= max_parent_depth(ps),
    decreases ps.len() - k,
{
    if k < ps.len() {
        lemma_max_parent_depth_prefix(ps, k + 1);
        assert(ps.subrange(0, k + 1).drop_last() =~= ps.subrange(0, k));
    } else {
        assert(ps.subrange(0, k) =~= ps);
    }
}

/// Every parent is no deeper than the deepest one.
pub proof fn lemma_max_parent_depth_bound(ps: Seq<(usize, u32, Relationship)>, i: int)
    requires
        0 <= i < ps.len(),
    ensures
        ps[i].1 <= max_parent_depth(ps),
    decreases ps.len(),
{
    if i < ps.len() - 1 {
        lemma_max_parent_depth_bound(ps.drop_last(), i);
    }
}

/// A fresh node whose depth has a queue keeps the graph and scheduler
/// coherent.
pub proof fn lemma_add_node_coherent(g: GraphEntries, qs: Seq<Seq<usize>>, i: usize, depth: u32)
    requires
        coherent(g, qs),
        !g.dom().contains(i),
        depth < qs.len(),
    ensures
        coherent(g.insert(i, (NodeContext::spec_new(depth), Seq::empty())), qs),
{
    let g2 = g.insert(i, (NodeContext::spec_new(depth), Seq::empty()));
    assert forall|x: usize, k: int| g2.dom().contains(x) && 0 <= k < g2[x].1.len() implies {
        &&& g2.dom().contains(g2[x].1[k].0)
        &&& g2[g2[x].1[k].0].0.depth > g2[x].0.depth
    } by {
        assert(x != i);
        assert(g[x].1[k] == g[x].1[k]);
    }
    assert forall|d: int, k: int| 0 <= d < qs.len() && 0 <= k < qs[d].len() implies {
        &&& g2.dom().contains(qs[d][k])
        &&& g2[qs[d][k]].0.depth == d
    } by {
        assert(qs[d][k] == qs[d][k]);
    }
}

} // verus!
