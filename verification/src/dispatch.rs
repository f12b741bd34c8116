//! Scheduling nodes into the depth queues, with the epoch check that keeps a
//! node from being queued twice in one cycle.
use crate::graph::{Graph, GraphEntries, NodeContext};
use crate::scheduler::Scheduler;
use vstd::prelude::*;

verus! {

/// Every edge leads to a live node strictly deeper than its source.
pub open spec fn edges_deepen(g: GraphEntries) -> bool {
    forall|a: usize, i: int|
        #![trigger g[a].1[i]]
        g.dom().contains(a) && 0 <= i < g[a].1.len() ==> {
            &&& g.dom().contains(g[a].1[i].0)
            &&& g[g[a].1[i].0].0.depth > g[a].0.depth
        }
}

/// Every live node has a queue for its depth.
pub open spec fn depths_fit(g: GraphEntries, n: nat) -> bool {
    forall|a: usize| #[trigger] g.dom().contains(a) ==> g[a].0.depth < n
}

/// Every queued index is a live node queued at its own depth.
pub open spec fn queued_live(g: GraphEntries, qs: Seq<Seq<usize>>) -> bool {
    forall|d: int, i: int|
        #![trigger qs[d][i]]
        0 <= d < qs.len() && 0 <= i < qs[d].len() ==> {
            &&& g.dom().contains(qs[d][i])
            &&& g[qs[d][i]].0.depth == d
        }
}

/// The graph and scheduler agree: the three invariants above.
pub open spec fn coherent(g: GraphEntries, qs: Seq<Seq<usize>>) -> bool {
    &&& edges_deepen(g)
    &&& depths_fit(g, qs.len())
    &&& queued_live(g, qs)
}

/// The effect of offering node `a` to the scheduler in `epoch`: a live node
/// not yet scheduled in `epoch` is marked and queued at its depth; anything
/// else is left alone.
pub open spec fn sched_one(s: (GraphEntries, Seq<Seq<usize>>), a: usize, epoch: usize) -> (
    GraphEntries,
    Seq<Seq<usize>>,
) {
    let (g, qs) = s;
    if g.dom().contains(a) && g[a].0.sched_epoch != epoch {
        let c = g[a].0;
        (
            g.insert(a, (NodeContext { sched_epoch: epoch, ..c }, g[a].1)),
            qs.update(c.depth as int, qs[c.depth as int].push(a)),
        )
    } else {
        s
    }
}

/// Offering every node of `items`, in order.
pub open spec fn sched_all(s: (GraphEntries, Seq<Seq<usize>>), items: Seq<usize>, epoch: usize) -> (
    GraphEntries,
    Seq<Seq<usize>>,
)
    decreases items.len(),
{
    if items.len() == 0 {
        s
    } else {
        sched_one(sched_all(s, items.drop_last(), epoch), items.last(), epoch)
    }
}

/// Poisoning node `a` (when live) and then offering it.
pub open spec fn sweep_one(s: (GraphEntries, Seq<Seq<usize>>), a: usize, epoch: usize) -> (
    GraphEntries,
    Seq<Seq<usize>>,
) {
    let (g, qs) = s;
    if g.dom().contains(a) {
        sched_one(
            (g.insert(a, (NodeContext { poisoned: true, ..g[a].0 }, g[a].1)), qs),
            a,
            epoch,
        )
    } else {
        s
    }
}

/// Poisoning and offering every node of `items`, in order.
pub open spec fn sweep_all(s: (GraphEntries, Seq<Seq<usize>>), items: Seq<usize>, epoch: usize) -> (
    GraphEntries,
    Seq<Seq<usize>>,
)
    decreases items.len(),
{
    if items.len() == 0 {
        s
    } else {
        sweep_one(sweep_all(s, items.drop_last(), epoch), items.last(), epoch)
    }
}

/// Number of queue entries `sched_all` can add at most.
pub proof fn lemma_sched_all_total(s: (GraphEntries, Seq<Seq<usize>>), items: Seq<usize>, epoch: usize)
    requires
        coherent(s.0, s.1),
    ensures
        coherent(sched_all(s, items, epoch).0, sched_all(s, items, epoch).1),
        sched_all(s, items, epoch).1.len() == s.1.len(),
        sched_all(s, items, epoch).0.dom() == s.0.dom(),
        crate::scheduler::total_len(sched_all(s, items, epoch).1) <= crate::scheduler::total_len(
            s.1,
        ) + items.len(),
    decreases items.len(),
{
    if items.len() > 0 {
        lemma_sched_all_total(s, items.drop_last(), epoch);
        lemma_sched_one(sched_all(s, items.drop_last(), epoch), items.last(), epoch);
    }
}

/// `sched_one` keeps the invariants, the node set and the queue count, and
/// adds at most one queue entry.
pub proof fn lemma_sched_one(s: (GraphEntries, Seq<Seq<usize>>), a: usize, epoch: usize)
    requires
        coherent(s.0, s.1),
    ensures
        coherent(sched_one(s, a, epoch).0, sched_one(s, a, epoch).1),
        sched_one(s, a, epoch).1.len() == s.1.len(),
        sched_one(s, a, epoch).0.dom() == s.0.dom(),
        crate::scheduler::total_len(sched_one(s, a, epoch).1) <= crate::scheduler::total_len(s.1)
            + 1,
        forall|k: usize|
            #[trigger] s.0.dom().contains(k) ==> sched_one(s, a, epoch).0[k].1 == s.0[k].1
                && sched_one(s, a, epoch).0[k].0.depth == s.0[k].0.depth,
{
    let (g, qs) = s;
    if g.dom().contains(a) && g[a].0.sched_epoch != epoch {
        let c = g[a].0;
        let d = c.depth as int;
        let g2 = g.insert(a, (NodeContext { sched_epoch: epoch, ..c }, g[a].1));
        let q2 = qs.update(d, qs[d].push(a));
        assert(g2.dom() =~= g.dom());
        crate::scheduler::lemma_total_len_update(qs, d, qs[d].push(a));
        assert forall|x: usize, i: int|
            g2.dom().contains(x) && 0 <= i < g2[x].1.len() implies {
            &&& g2.dom().contains(g2[x].1[i].0)
            &&& g2[g2[x].1[i].0].0.depth > g2[x].0.depth
        } by {
            assert(g2[x].1 == g[x].1);
            assert(g[x].1[i] == g[x].1[i]);
        }
        assert forall|dd: int, i: int| 0 <= dd < q2.len() && 0 <= i < q2[dd].len() implies {
            &&& g2.dom().contains(q2[dd][i])
            &&& g2[q2[dd][i]].0.depth == dd
        } by {
            if dd == d && i == qs[d].len() {
            } else {
                assert(q2[dd][i] == qs[dd][i]);
            }
        }
    }
}

/// Poisoning a live node keeps the invariants.
pub proof fn lemma_sweep_one(s: (GraphEntries, Seq<Seq<usize>>), a: usize, epoch: usize)
    requires
        coherent(s.0, s.1),
    ensures
        coherent(sweep_one(s, a, epoch).0, sweep_one(s, a, epoch).1),
        sweep_one(s, a, epoch).1.len() == s.1.len(),
        sweep_one(s, a, epoch).0.dom() == s.0.dom(),
        crate::scheduler::total_len(sweep_one(s, a, epoch).1) <= crate::scheduler::total_len(s.1)
            + 1,
{
    let (g, qs) = s;
    if g.dom().contains(a) {
        let g1 = g.insert(a, (NodeContext { poisoned: true, ..g[a].0 }, g[a].1));
        assert(g1.dom() =~= g.dom());
        assert forall|x: usize, i: int|
            g1.dom().contains(x) && 0 <= i < g1[x].1.len() implies {
            &&& g1.dom().contains(g1[x].1[i].0)
            &&& g1[g1[x].1[i].0].0.depth > g1[x].0.depth
        } by {
            assert(g1[x].1 == g[x].1);
            assert(g[x].1[i] == g[x].1[i]);
        }
        lemma_sched_one((g1, qs), a, epoch);
    }
}

/// Offers `a` to the scheduler: marks it and queues it unless it is not a
/// node or was already scheduled in `epoch`.
pub fn offer(graph: &mut Graph, scheduler: &mut Scheduler, a: usize, epoch: usize)
    requires
        old(graph).wf(),
        old(scheduler).wf(),
        old(graph).has(a) ==> old(scheduler).current_depth() <= old(graph).ctx(a).depth,
        coherent(old(graph).entries(), old(scheduler).queues()),
        old(scheduler).pending() < usize::MAX,
    ensures
        final(graph).wf(),
        final(scheduler).wf(),
        (final(graph).entries(), final(scheduler).queues()) == sched_one(
            (old(graph).entries(), old(scheduler).queues()),
            a,
            epoch,
        ),
        final(scheduler).current_depth() == old(scheduler).current_depth(),
{
    proof {
        lemma_sched_one((graph.entries(), scheduler.queues()), a, epoch);
        scheduler.lemma_wf();
    }
    match graph.can_schedule(a, epoch) {
        Some(depth) => {
            let r = scheduler.schedule(a, depth);
        },
        None => {},
    }
}

/// Offers every node of `items`, in order.
pub fn offer_all(graph: &mut Graph, scheduler: &mut Scheduler, items: &Vec<usize>, epoch: usize)
    requires
        old(graph).wf(),
        old(scheduler).wf(),
        forall|i: int|
            0 <= i < items@.len() && old(graph).has(#[trigger] items@[i]) ==> old(
            scheduler).current_depth() <= old(graph).ctx(items@[i]).depth,
        coherent(old(graph).entries(), old(scheduler).queues()),
        old(scheduler).pending() + items@.len() < usize::MAX,
    ensures
        final(graph).wf(),
        final(scheduler).wf(),
        (final(graph).entries(), final(scheduler).queues()) == sched_all(
            (old(graph).entries(), old(scheduler).queues()),
            items@,
            epoch,
        ),
        coherent(final(graph).entries(), final(scheduler).queues()),
        final(scheduler).current_depth() == old(scheduler).current_depth(),
{
    let mut i: usize = 0;
    while i < items.len()
        invariant
            0 <= i <= items@.len(),
            graph.wf(),
            scheduler.wf(),
            scheduler.current_depth() == old(scheduler).current_depth(),
            forall|j: int|
                0 <= j < items@.len() && old(graph).has(#[trigger] items@[j]) ==> old(
                scheduler).current_depth() <= old(graph).ctx(items@[j]).depth,
            graph.entries().dom() == old(graph).entries().dom(),
            forall|k: usize| #[trigger] graph.entries().dom().contains(k) ==> graph.entries()[k].0.depth
                == old(graph).entries()[k].0.depth,
            (graph.entries(), scheduler.queues()) == sched_all(
                (old(graph).entries(), old(scheduler).queues()),
                items@.subrange(0, i as int),
                epoch,
            ),
            coherent(graph.entries(), scheduler.queues()),
            scheduler.pending() <= old(scheduler).pending() + i,
            old(scheduler).pending() + items@.len() < usize::MAX,
        decreases items@.len() - i,
    {
        let ghost before = (graph.entries(), scheduler.queues());
        proof {
            lemma_sched_one(before, items@[i as int], epoch);
            scheduler.lemma_wf();
        }
        offer(graph, scheduler, items[i], epoch);
        proof {
            assert(items@.subrange(0, i + 1).drop_last() =~= items@.subrange(0, i as int));
            scheduler.lemma_wf();
        }
        i = i + 1;
    }
    assert(items@.subrange(0, items@.len() as int) =~= items@);
}

/// Changing a live node's metadata but not its depth keeps the invariants.
pub proof fn lemma_reweight(g: GraphEntries, qs: Seq<Seq<usize>>, a: usize, c: NodeContext)
    requires
        coherent(g, qs),
        g.dom().contains(a),
        c.depth == g[a].0.depth,
    ensures
        coherent(g.insert(a, (c, g[a].1)), qs),
        g.insert(a, (c, g[a].1)).dom() == g.dom(),
{
    let g2 = g.insert(a, (c, g[a].1));
    assert(g2.dom() =~= g.dom());
    assert forall|x: usize, i: int| g2.dom().contains(x) && 0 <= i < g2[x].1.len() implies {
        &&& g2.dom().contains(g2[x].1[i].0)
        &&& g2[g2[x].1[i].0].0.depth > g2[x].0.depth
    } by {
        assert(g2[x].1 == g[x].1);
        assert(g[x].1[i] == g[x].1[i]);
    }
}

/// Extra empty queues keep the invariants.
pub proof fn lemma_extend_queues(g: GraphEntries, qs: Seq<Seq<usize>>, qs2: Seq<Seq<usize>>)
    requires
        coherent(g, qs),
        qs2.len() >= qs.len(),
        qs2.subrange(0, qs.len() as int) == qs,
        forall|d: int| qs.len() <= d < qs2.len() ==> #[trigger] qs2[d].len() == 0,
    ensures
        queued_live(g, qs2),
        edges_deepen(g),
        depths_fit(g, qs2.len()),
{
    assert forall|d: int, i: int| 0 <= d < qs2.len() && 0 <= i < qs2[d].len() implies {
        &&& g.dom().contains(qs2[d][i])
        &&& g[qs2[d][i]].0.depth == d
    } by {
        assert(qs2[d] == qs2.subrange(0, qs.len() as int)[d]);
        assert(qs[d][i] == qs[d][i]);
    }
}

/// Adding the edge `p -> c` from a shallower live node keeps the invariants.
pub proof fn lemma_add_edge(g: GraphEntries, qs: Seq<Seq<usize>>, p: usize, c: usize, r: crate::Relationship)
    requires
        coherent(g, qs),
        g.dom().contains(p),
        g.dom().contains(c),
        g[c].0.depth > g[p].0.depth,
    ensures
        coherent(g.insert(p, (g[p].0, seq![(c, r)] + g[p].1)), qs),
        g.insert(p, (g[p].0, seq![(c, r)] + g[p].1)).dom() == g.dom(),
{
    let g2 = g.insert(p, (g[p].0, seq![(c, r)] + g[p].1));
    assert(g2.dom() =~= g.dom());
    assert forall|x: usize, i: int| g2.dom().contains(x) && 0 <= i < g2[x].1.len() implies {
        &&& g2.dom().contains(g2[x].1[i].0)
        &&& g2[g2[x].1[i].0].0.depth > g2[x].0.depth
    } by {
        if x == p {
            if i > 0 {
                assert(g2[x].1[i] == g[p].1[i - 1]);
            }
        } else {
            assert(g[x].1[i] == g[x].1[i]);
        }
    }
    assert forall|d: int, i: int| 0 <= d < qs.len() && 0 <= i < qs[d].len() implies {
        &&& g2.dom().contains(qs[d][i])
        &&& g2[qs[d][i]].0.depth == d
    } by {
        assert(qs[d][i] == qs[d][i]);
    }
}

/// With every queue empty, removing node `n` keeps the invariants.
pub proof fn lemma_remove(g: GraphEntries, qs: Seq<Seq<usize>>, n: usize)
    requires
        coherent(g, qs),
        forall|d: int| 0 <= d < qs.len() ==> #[trigger] qs[d].len() == 0,
        g.dom().contains(n),
    ensures
        coherent(crate::graph::entries_without(g, n), qs),
{
    let g2 = crate::graph::entries_without(g, n);
    assert forall|x: usize, i: int| g2.dom().contains(x) && 0 <= i < g2[x].1.len() implies {
        &&& g2.dom().contains(g2[x].1[i].0)
        &&& g2[g2[x].1[i].0].0.depth > g2[x].0.depth
    } by {
        let f = crate::graph::not_into(n);
        assert(g2[x].1 == g[x].1.filter(f));
        let e = g2[x].1[i];
        assert(g2[x].1.contains(e));
        g[x].1.lemma_filter_contains_rev(f, e);
        assert(g[x].1.contains(e));
        let j = choose|j: int| 0 <= j < g[x].1.len() && g[x].1[j] == e;
        assert(g[x].1[j] == g[x].1[j]);
    }
}

/// Poisons (when live) and offers every node of `items`, in order.
pub fn sweep_offer_all(graph: &mut Graph, scheduler: &mut Scheduler, items: &Vec<usize>, epoch: usize)
    requires
        old(graph).wf(),
        old(scheduler).wf(),
        forall|i: int|
            0 <= i < items@.len() && old(graph).has(#[trigger] items@[i]) ==> old(
            scheduler).current_depth() <= old(graph).ctx(items@[i]).depth,
        coherent(old(graph).entries(), old(scheduler).queues()),
        old(scheduler).pending() + items@.len() < usize::MAX,
    ensures
        final(graph).wf(),
        final(scheduler).wf(),
        (final(graph).entries(), final(scheduler).queues()) == sweep_all(
            (old(graph).entries(), old(scheduler).queues()),
            items@,
            epoch,
        ),
        coherent(final(graph).entries(), final(scheduler).queues()),
        final(scheduler).current_depth() == old(scheduler).current_depth(),
{
    let mut i: usize = 0;
    while i < items.len()
        invariant
            0 <= i <= items@.len(),
            graph.wf(),
            scheduler.wf(),
            scheduler.current_depth() == old(scheduler).current_depth(),
            forall|j: int|
                0 <= j < items@.len() && old(graph).has(#[trigger] items@[j]) ==> old(
                scheduler).current_depth() <= old(graph).ctx(items@[j]).depth,
            graph.entries().dom() == old(graph).entries().dom(),
            forall|k: usize| #[trigger] graph.entries().dom().contains(k) ==> graph.entries()[k].0.depth
                == old(graph).entries()[k].0.depth,
            (graph.entries(), scheduler.queues()) == sweep_all(
                (old(graph).entries(), old(scheduler).queues()),
                items@.subrange(0, i as int),
                epoch,
            ),
            coherent(graph.entries(), scheduler.queues()),
            scheduler.pending() <= old(scheduler).pending() + i,
            old(scheduler).pending() + items@.len() < usize::MAX,
        decreases items@.len() - i,
    {
        let a = items[i];
        let ghost before = (graph.entries(), scheduler.queues());
        proof {
            lemma_sweep_one(before, a, epoch);
            scheduler.lemma_wf();
        }
        match graph.node(a) {
            Some(c) => {
                graph.mark_poisoned(a);
                proof {
                    lemma_reweight(before.0, before.1, a, NodeContext { poisoned: true, ..c });
                    lemma_sched_one((graph.entries(), scheduler.queues()), a, epoch);
                }
                offer(graph, scheduler, a, epoch);
            },
            None => {},
        }
        proof {
            assert(items@.subrange(0, i + 1).drop_last() =~= items@.subrange(0, i as int));
            scheduler.lemma_wf();
        }
        i = i + 1;
    }
    assert(items@.subrange(0, items@.len() as int) =~= items@);
}

/// Whether `a` is no node of `g` or was already scheduled in `epoch`.
pub open spec fn settled(g: GraphEntries, a: usize, epoch: usize) -> bool {
    !g.dom().contains(a) || g[a].0.sched_epoch == epoch
}

/// Offering a node keeps the node set, and a node already settled in
/// `epoch` stays settled.
proof fn lemma_sched_one_settles(s: (GraphEntries, Seq<Seq<usize>>), a: usize, b: usize, epoch: usize)
    ensures
        sched_one(s, a, epoch).0.dom() == s.0.dom(),
        settled(sched_one(s, a, epoch).0, a, epoch),
        settled(s.0, b, epoch) ==> settled(sched_one(s, a, epoch).0, b, epoch),
{
    let (g, qs) = s;
    if g.dom().contains(a) && g[a].0.sched_epoch != epoch {
        let c = g[a].0;
        assert(g.insert(a, (NodeContext { sched_epoch: epoch, ..c }, g[a].1)).dom() =~= g.dom());
    }
}

/// After offering nodes in an epoch, each of them that is a node has been
/// scheduled in that epoch (now or earlier in it), and no node was added or
/// removed.
pub proof fn law_offered_nodes_scheduled_this_epoch(s: (GraphEntries, Seq<Seq<usize>>), items: Seq<usize>, epoch: usize)
    ensures
        sched_all(s, items, epoch).0.dom() == s.0.dom(),
        forall|i: int| 0 <= i < items.len() ==> settled(sched_all(s, items, epoch).0, #[trigger] items[i], epoch),
    decreases items.len(),
{
    if items.len() > 0 {
        let t = sched_all(s, items.drop_last(), epoch);
        law_offered_nodes_scheduled_this_epoch(s, items.drop_last(), epoch);
        assert forall|i: int| 0 <= i < items.len() implies settled(sched_all(s, items, epoch).0, #[trigger] items[i], epoch) by {
            lemma_sched_one_settles(t, items.last(), items[i], epoch);
            if i < items.len() - 1 {
                assert(items.drop_last()[i] == items[i]);
            }
        }
        lemma_sched_one_settles(t, items.last(), items.last(), epoch);
    }
}

/// Offering only settled nodes changes nothing.
proof fn lemma_sched_all_settled_noop(s: (GraphEntries, Seq<Seq<usize>>), items: Seq<usize>, epoch: usize)
    requires
        forall|i: int| 0 <= i < items.len() ==> settled(s.0, #[trigger] items[i], epoch),
    ensures
        sched_all(s, items, epoch) == s,
    decreases items.len(),
{
    if items.len() > 0 {
        assert forall|i: int| 0 <= i < items.drop_last().len() implies settled(s.0, #[trigger] items.drop_last()[i], epoch) by {
            assert(items.drop_last()[i] == items[i]);
        }
        lemma_sched_all_settled_noop(s, items.drop_last(), epoch);
        assert(settled(s.0, items[items.len() - 1], epoch));
    }
}

/// A node is queued at most once per epoch: offering it again in the same
/// epoch changes nothing.
pub proof fn law_offer_once_per_epoch(s: (GraphEntries, Seq<Seq<usize>>), a: usize, epoch: usize)
    ensures
        sched_one(sched_one(s, a, epoch), a, epoch) == sched_one(s, a, epoch),
{
    lemma_sched_one_settles(s, a, a, epoch);
}

/// Offering the same nodes twice in one epoch has the effect of offering
/// them once.
pub proof fn law_offer_all_once_per_epoch(s: (GraphEntries, Seq<Seq<usize>>), items: Seq<usize>, epoch: usize)
    ensures
        sched_all(sched_all(s, items, epoch), items, epoch) == sched_all(s, items, epoch),
{
    law_offered_nodes_scheduled_this_epoch(s, items, epoch);
    lemma_sched_all_settled_noop(sched_all(s, items, epoch), items, epoch);
}

/// Offering nodes never unsettles a node already settled in the epoch.
proof fn lemma_sched_all_keeps_settled(
    s: (GraphEntries, Seq<Seq<usize>>),
    items: Seq<usize>,
    b: usize,
    epoch: usize,
)
    requires
        settled(s.0, b, epoch),
    ensures
        settled(sched_all(s, items, epoch).0, b, epoch),
    decreases items.len(),
{
    if items.len() > 0 {
        lemma_sched_all_keeps_settled(s, items.drop_last(), b, epoch);
        lemma_sched_one_settles(sched_all(s, items.drop_last(), epoch), items.last(), b, epoch);
    }
}

/// A node that yielded is scheduled in the next cycle (unless it is no
/// longer a node): whatever notifications come before the yields and
/// whatever timers fire after them, the node ends up scheduled in the new
/// epoch.
pub proof fn law_yielded_node_runs_next_cycle(
    s: (GraphEntries, Seq<Seq<usize>>),
    notified: Seq<usize>,
    yields: Seq<usize>,
    fired: Seq<usize>,
    epoch: usize,
    a: usize,
)
    requires
        yields.contains(a),
    ensures
        settled(
            sched_all(sched_all(sched_all(s, notified, epoch), yields, epoch), fired, epoch).0,
            a,
            epoch,
        ),
{
    let t = sched_all(s, notified, epoch);
    let i = choose|i: int| 0 <= i < yields.len() && yields[i] == a;
    law_offered_nodes_scheduled_this_epoch(t, yields, epoch);
    assert(settled(sched_all(t, yields, epoch).0, yields[i], epoch));
    lemma_sched_all_keeps_settled(sched_all(t, yields, epoch), fired, a, epoch);
}

/// The queues `q1` are the queues `q0` with entries appended at their backs,
/// none of them `a`.
pub open spec fn grows_without(q0: Seq<Seq<usize>>, q1: Seq<Seq<usize>>, a: usize) -> bool {
    &&& q1.len() == q0.len()
    &&& forall|d: int|
        #![trigger q1[d]]
        0 <= d < q0.len() ==> {
            &&& q0[d].len() <= q1[d].len()
            &&& q1[d].subrange(0, q0[d].len() as int) == q0[d]
            &&& forall|i: int| q0[d].len() <= i < q1[d].len() ==> #[trigger] q1[d][i] != a
        }
}

proof fn lemma_grows_without_trans(q0: Seq<Seq<usize>>, q1: Seq<Seq<usize>>, q2: Seq<Seq<usize>>, a: usize)
    requires
        grows_without(q0, q1, a),
        grows_without(q1, q2, a),
    ensures
        grows_without(q0, q2, a),
{
    assert forall|d: int| #![trigger q2[d]] 0 <= d < q0.len() implies {
        &&& q0[d].len() <= q2[d].len()
        &&& q2[d].subrange(0, q0[d].len() as int) == q0[d]
        &&& forall|i: int| q0[d].len() <= i < q2[d].len() ==> #[trigger] q2[d][i] != a
    } by {
        assert(q1[d].subrange(0, q0[d].len() as int) == q0[d]);
        assert(q2[d].subrange(0, q1[d].len() as int) == q1[d]);
        assert(q2[d].subrange(0, q0[d].len() as int) =~= q0[d]) by {
            assert forall|i: int| 0 <= i < q0[d].len() implies q2[d][i] == q0[d][i] by {
                assert(q2[d].subrange(0, q1[d].len() as int)[i] == q2[d][i]);
                assert(q1[d].subrange(0, q0[d].len() as int)[i] == q1[d][i]);
            }
        }
        assert forall|i: int| q0[d].len() <= i < q2[d].len() implies #[trigger] q2[d][i] != a by {
            if i < q1[d].len() {
                assert(q2[d].subrange(0, q1[d].len() as int)[i] == q2[d][i]);
                assert(q1[d][i] != a);
            }
        }
    }
}

proof fn lemma_grows_without_refl(q: Seq<Seq<usize>>, a: usize)
    ensures
        grows_without(q, q, a),
{
    assert forall|d: int| #![trigger q[d]] 0 <= d < q.len() implies q[d].subrange(0, q[d].len() as int) == q[d] by {
        assert(q[d].subrange(0, q[d].len() as int) =~= q[d]);
    }
}

/// Offering (or sweeping) one node never queues a node already settled.
proof fn lemma_step_keeps_out(s: (GraphEntries, Seq<Seq<usize>>), b: usize, a: usize, epoch: usize, sweep: bool)
    requires
        coherent(s.0, s.1),
        settled(s.0, a, epoch),
    ensures
        grows_without(s.1, (if sweep { sweep_one(s, b, epoch) } else { sched_one(s, b, epoch) }).1, a),
        settled((if sweep { sweep_one(s, b, epoch) } else { sched_one(s, b, epoch) }).0, a, epoch),
{
    let (g, qs) = s;
    lemma_grows_without_refl(qs, a);
    let g1 = if sweep && g.dom().contains(b) {
        g.insert(b, (NodeContext { poisoned: true, ..g[b].0 }, g[b].1))
    } else {
        g
    };
    let r = if sweep { sweep_one(s, b, epoch) } else { sched_one(s, b, epoch) };
    assert(g1.dom() =~= g.dom());
    assert(settled(g1, a, epoch));
    if sweep && g.dom().contains(b) {
        assert(r == sched_one((g1, qs), b, epoch));
    } else {
        assert(r == sched_one((g1, qs), b, epoch));
    }
    lemma_sched_one_settles((g1, qs), b, a, epoch);
    if g1.dom().contains(b) && g1[b].0.sched_epoch != epoch {
        let d = g1[b].0.depth as int;
        assert(b != a);
        assert(0 <= d < qs.len());
        let q2 = qs.update(d, qs[d].push(b));
        assert forall|e: int| #![trigger q2[e]] 0 <= e < qs.len() implies {
            &&& qs[e].len() <= q2[e].len()
            &&& q2[e].subrange(0, qs[e].len() as int) == qs[e]
            &&& forall|i: int| qs[e].len() <= i < q2[e].len() ==> #[trigger] q2[e][i] != a
        } by {
            if e == d {
                assert(q2[e].subrange(0, qs[e].len() as int) =~= qs[e]);
            } else {
                assert(q2[e].subrange(0, qs[e].len() as int) =~= qs[e]);
            }
        }
    }
}

/// Every queued node was scheduled in `epoch`, and no queue holds a node
/// twice (a node is only ever queued at its own depth, so it is queued at
/// most once).
pub open spec fn queued_once(g: GraphEntries, qs: Seq<Seq<usize>>, epoch: usize) -> bool {
    &&& forall|d: int, i: int|
        #![trigger qs[d][i]]
        0 <= d < qs.len() && 0 <= i < qs[d].len() ==> g[qs[d][i]].0.sched_epoch == epoch
    &&& forall|d: int, i: int, j: int|
        #![trigger qs[d][i], qs[d][j]]
        0 <= d < qs.len() && 0 <= i < j < qs[d].len() ==> qs[d][i] != qs[d][j]
}

/// `a` is in no queue.
pub open spec fn unqueued(qs: Seq<Seq<usize>>, a: usize) -> bool {
    forall|d: int, i: int| #![trigger qs[d][i]] 0 <= d < qs.len() && 0 <= i < qs[d].len() ==> qs[d][i] != a
}

/// Queues that only grew at their backs by entries other than `a` still do
/// not hold `a`.
pub proof fn lemma_grows_keeps_unqueued(q0: Seq<Seq<usize>>, q1: Seq<Seq<usize>>, a: usize)
    requires
        grows_without(q0, q1, a),
        unqueued(q0, a),
    ensures
        unqueued(q1, a),
{
    assert forall|d: int, i: int| 0 <= d < q1.len() && 0 <= i < q1[d].len() implies #[trigger] q1[d][i] != a by {
        if i < q0[d].len() {
            assert(q1[d].subrange(0, q0[d].len() as int)[i] == q1[d][i]);
            assert(q0[d][i] != a);
        }
    }
}

/// Offering a node keeps every queued node scheduled in the epoch and
/// queued once.
proof fn lemma_sched_one_once(s: (GraphEntries, Seq<Seq<usize>>), a: usize, epoch: usize)
    requires
        coherent(s.0, s.1),
        queued_once(s.0, s.1, epoch),
    ensures
        queued_once(sched_one(s, a, epoch).0, sched_one(s, a, epoch).1, epoch),
{
    let (g, qs) = s;
    if g.dom().contains(a) && g[a].0.sched_epoch != epoch {
        let c = g[a].0;
        let dep = c.depth as int;
        let g2 = g.insert(a, (NodeContext { sched_epoch: epoch, ..c }, g[a].1));
        let q2 = qs.update(dep, qs[dep].push(a));
        assert(0 <= dep < qs.len());
        assert forall|d: int, i: int| 0 <= d < qs.len() && 0 <= i < qs[d].len() implies #[trigger] qs[d][i] != a by {
            assert(g[qs[d][i]].0.sched_epoch == epoch);
        }
        assert forall|d: int, i: int| 0 <= d < q2.len() && 0 <= i < q2[d].len() implies #[trigger] g2[q2[d][i]].0.sched_epoch == epoch by {
            if d == dep && i == qs[dep].len() {
                assert(q2[d][i] == a);
            } else {
                assert(q2[d][i] == qs[d][i]);
                assert(qs[d][i] != a);
            }
        }
        assert forall|d: int, i: int, j: int| 0 <= d < q2.len() && 0 <= i < j < q2[d].len() implies #[trigger] q2[d][i] != #[trigger] q2[d][j] by {
            assert(q2[d][i] == qs[d][i]);
            if d == dep && j == qs[dep].len() {
                assert(qs[d][i] != a);
            } else {
                assert(q2[d][j] == qs[d][j]);
            }
        }
    }
}

/// Offering or sweeping nodes keeps every queued node scheduled in the
/// epoch and queued once.
pub proof fn lemma_offers_queue_once(s: (GraphEntries, Seq<Seq<usize>>), items: Seq<usize>, epoch: usize, sweep: bool)
    requires
        coherent(s.0, s.1),
        queued_once(s.0, s.1, epoch),
    ensures
        queued_once(
            (if sweep { sweep_all(s, items, epoch) } else { sched_all(s, items, epoch) }).0,
            (if sweep { sweep_all(s, items, epoch) } else { sched_all(s, items, epoch) }).1,
            epoch,
        ),
    decreases items.len(),
{
    if items.len() > 0 {
        lemma_offers_queue_once(s, items.drop_last(), epoch, sweep);
        let t = if sweep { sweep_all(s, items.drop_last(), epoch) } else { sched_all(s, items.drop_last(), epoch) };
        lemma_settles_coherent(s, items.drop_last(), epoch, sweep);
        let b = items.last();
        if sweep {
            let (g, qs) = t;
            if g.dom().contains(b) {
                let c1 = NodeContext { poisoned: true, ..g[b].0 };
                lemma_reweight(g, qs, b, c1);
                let g1 = g.insert(b, (c1, g[b].1));
                assert forall|d: int, i: int| 0 <= d < qs.len() && 0 <= i < qs[d].len() implies #[trigger] g1[qs[d][i]].0.sched_epoch == epoch by {
                    assert(g[qs[d][i]].0.sched_epoch == epoch);
                }
                lemma_sched_one_once((g1, qs), b, epoch);
            }
        } else {
            lemma_sched_one_once(t, b, epoch);
        }
    }
}

/// Offering or sweeping nodes keeps the graph and queues coherent.
proof fn lemma_settles_coherent(s: (GraphEntries, Seq<Seq<usize>>), items: Seq<usize>, epoch: usize, sweep: bool)
    requires
        coherent(s.0, s.1),
    ensures
        coherent(
            (if sweep { sweep_all(s, items, epoch) } else { sched_all(s, items, epoch) }).0,
            (if sweep { sweep_all(s, items, epoch) } else { sched_all(s, items, epoch) }).1,
        ),
    decreases items.len(),
{
    if items.len() > 0 {
        lemma_settles_coherent(s, items.drop_last(), epoch, sweep);
        let t = if sweep { sweep_all(s, items.drop_last(), epoch) } else { sched_all(s, items.drop_last(), epoch) };
        if sweep {
            lemma_sweep_one(t, items.last(), epoch);
        } else {
            lemma_sched_one(t, items.last(), epoch);
        }
    }
}

/// A node runs at most once per cycle: once a node is settled in an epoch
/// (scheduled in it), offering or sweeping any nodes in that epoch never
/// queues it again; the queues only grow at their backs, by other nodes.
pub proof fn law_settled_node_never_queued_again(
    s: (GraphEntries, Seq<Seq<usize>>),
    items: Seq<usize>,
    epoch: usize,
    a: usize,
    sweep: bool,
)
    requires
        coherent(s.0, s.1),
        settled(s.0, a, epoch),
    ensures
        grows_without(s.1, (if sweep { sweep_all(s, items, epoch) } else { sched_all(s, items, epoch) }).1, a),
        settled((if sweep { sweep_all(s, items, epoch) } else { sched_all(s, items, epoch) }).0, a, epoch),
        coherent((if sweep { sweep_all(s, items, epoch) } else { sched_all(s, items, epoch) }).0,
            (if sweep { sweep_all(s, items, epoch) } else { sched_all(s, items, epoch) }).1),
    decreases items.len(),
{
    if items.len() == 0 {
        lemma_grows_without_refl(s.1, a);
    } else {
        law_settled_node_never_queued_again(s, items.drop_last(), epoch, a, sweep);
        let t = if sweep { sweep_all(s, items.drop_last(), epoch) } else { sched_all(s, items.drop_last(), epoch) };
        lemma_step_keeps_out(t, items.last(), a, epoch, sweep);
        if sweep {
            lemma_sweep_one(t, items.last(), epoch);
        } else {
            lemma_sched_one(t, items.last(), epoch);
        }
        let r = if sweep { sweep_one(t, items.last(), epoch) } else { sched_one(t, items.last(), epoch) };
        lemma_grows_without_trans(s.1, t.1, r.1, a);
    }
}

} // verus!
