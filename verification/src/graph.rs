//! The computation graph: nodes with scheduling metadata, edges with a
//! [`Relationship`], stored in a `petgraph` stable graph so that node indices
//! stay valid while other nodes are removed.
use crate::Relationship;
use petgraph::stable_graph::StableGraph;
use petgraph::stable_graph::NodeIndex;
use petgraph::visit::EdgeRef;
use petgraph::Direction;
use vstd::prelude::*;

verus! {

/// Scheduling metadata the graph keeps for each node.
#[derive(Debug, Clone, Copy, PartialEq, Eq, Structural)]
pub struct NodeContext {
    /// Last epoch in which the node was scheduled (0 until first scheduled).
    pub sched_epoch: usize,
    /// Depth in the dependency graph: one more than the deepest parent.
    pub depth: u32,
    /// Set when an upstream node was swept; the node is then swept as well.
    pub poisoned: bool,
    /// Last epoch in which the node broadcast a change (0 until then).
    pub mut_epoch: usize,
}

impl NodeContext {
    /// Metadata of a fresh node at `depth`: never scheduled, not poisoned,
    /// never changed.
    pub open spec fn spec_new(depth: u32) -> NodeContext {
        NodeContext { sched_epoch: 0, depth, poisoned: false, mut_epoch: 0 }
    }

    /// Metadata of a fresh node at `depth`.
    pub fn new(depth: u32) -> (c: NodeContext)
        ensures
            c == Self::spec_new(depth),
    {
        NodeContext { sched_epoch: 0, depth, poisoned: false, mut_epoch: 0 }
    }
}

/// Outgoing edges of a node: `(target, relationship)`, most recently added first.
pub type OutEdges = Seq<(usize, Relationship)>;

#[verifier::external_type_specification]
#[verifier::external_body]
#[verifier::reject_recursive_types(N)]
#[verifier::reject_recursive_types(E)]
#[verifier::reject_recursive_types(Ty)]
#[verifier::reject_recursive_types(Ix)]
pub struct ExStableGraph<N, E, Ty, Ix>(StableGraph<N, E, Ty, Ix>);

#[verifier::external_type_specification]
#[verifier::external_body]
pub struct ExDirected(petgraph::Directed);

/// Live node indices mapped to their metadata and outgoing edges.
pub type GraphEntries = Map<usize, (NodeContext, OutEdges)>;

/// The petgraph stable graph that backs [`Graph`].
pub type NodeGraph = StableGraph<NodeContext, Relationship>;

/// What a stable graph holds: for each live node index, its weight and its
/// outgoing edges (target index and weight), most recently added first.
pub uninterp spec fn graph_entries(g: NodeGraph) -> Map<
    usize,
    (NodeContext, OutEdges),
>;

/// `StableGraph::edge_count`: the number of edges in the graph.
pub uninterp spec fn graph_edge_count(g: NodeGraph) -> nat;

/// Every live index fits the graph's `u32` index type and the node set is finite.
pub open spec fn entries_sane(m: Map<usize, (NodeContext, OutEdges)>) -> bool {
    &&& m.dom().finite()
    &&& forall|k: usize| #[trigger] m.dom().contains(k) ==> k < u32::MAX
}

/// Keeps the edges that do not point at `a`.
pub open spec fn not_into(a: usize) -> spec_fn((usize, Relationship)) -> bool {
    |e: (usize, Relationship)| e.0 != a
}

/// The entries after removing node `a`: its entry goes, and so does every
/// edge that pointed at it.
pub open spec fn entries_without(m: Map<usize, (NodeContext, OutEdges)>, a: usize) -> Map<
    usize,
    (NodeContext, OutEdges),
> {
    Map::new(
        |k: usize| m.dom().contains(k) && k != a,
        |k: usize| (m[k].0, m[k].1.filter(not_into(a))),
    )
}

/// `StableGraph::new`: an empty graph.
#[verifier::external_body]
fn stable_graph_new() -> (g: NodeGraph)
    ensures
        graph_entries(g) == GraphEntries::empty(),
        graph_edge_count(g) == 0,
{
    StableGraph::new()
}

/// `StableGraph::add_node`: the weight goes into a vacant index (a previously
/// freed slot or a new one) with no edges. Panics only when the graph already
/// holds `u32::MAX` nodes, which `requires` excludes.
#[verifier::external_body]
fn stable_graph_add_node(g: &mut NodeGraph, w: NodeContext) -> (i:
    usize)
    requires
        entries_sane(graph_entries(*old(g))),
        graph_entries(*old(g)).dom().len() < u32::MAX,
    ensures
        !graph_entries(*old(g)).dom().contains(i),
        i < u32::MAX,
        graph_entries(*final(g)) == graph_entries(*old(g)).insert(i, (w, Seq::empty())),
        graph_edge_count(*final(g)) == graph_edge_count(*old(g)),
{
    g.add_node(w).index()
}

/// `StableGraph::try_add_edge`: on success the edge `a -> b` is placed first
/// in `a`'s outgoing list and the edge count grows by one; it fails (leaving
/// the graph as it was) exactly when the graph already holds `u32::MAX`
/// edges, the number of edge indices of its `u32` index type.
#[verifier::external_body]
fn stable_graph_try_add_edge(
    g: &mut NodeGraph,
    a: usize,
    b: usize,
    r: Relationship,
) -> (ok: bool)
    requires
        graph_entries(*old(g)).dom().contains(a),
        graph_entries(*old(g)).dom().contains(b),
        a < u32::MAX,
        b < u32::MAX,
    ensures
        ok ==> graph_entries(*final(g)) == graph_entries(*old(g)).insert(
            a,
            (graph_entries(*old(g))[a].0, seq![(b, r)] + graph_entries(*old(g))[a].1),
        ),
        !ok ==> graph_entries(*final(g)) == graph_entries(*old(g)),
        ok == (graph_edge_count(*old(g)) < u32::MAX),
        ok ==> graph_edge_count(*final(g)) == graph_edge_count(*old(g)) + 1,
        !ok ==> graph_edge_count(*final(g)) == graph_edge_count(*old(g)),
{
    g.try_add_edge(NodeIndex::new(a), NodeIndex::new(b), r).is_ok()
}

/// `StableGraph::remove_node`: removes node `a` with every edge touching it
/// (the order of the remaining edges is kept) and hands back its weight;
/// `None` and no change when `a` is not a node.
#[verifier::external_body]
fn stable_graph_remove_node(g: &mut NodeGraph, a: usize) -> (r:
    Option<NodeContext>)
    requires
        a < u32::MAX,
    ensures
        graph_entries(*old(g)).dom().contains(a) ==> {
            &&& r == Some(graph_entries(*old(g))[a].0)
            &&& graph_entries(*final(g)) == entries_without(graph_entries(*old(g)), a)
        },
        !graph_entries(*old(g)).dom().contains(a) ==> {
            &&& r is None
            &&& graph_entries(*final(g)) == graph_entries(*old(g))
        },
        graph_edge_count(*final(g)) <= graph_edge_count(*old(g)),
{
    g.remove_node(NodeIndex::new(a))
}

/// `StableGraph::node_weight`: a copy of node `a`'s weight, `None` when `a`
/// is not a node.
#[verifier::external_body]
fn stable_graph_node_weight(g: &NodeGraph, a: usize) -> (r: Option<
    NodeContext,
>)
    requires
        a < u32::MAX,
    ensures
        graph_entries(*g).dom().contains(a) ==> r == Some(graph_entries(*g)[a].0),
        !graph_entries(*g).dom().contains(a) ==> r is None,
{
    g.node_weight(NodeIndex::new(a)).copied()
}

/// `IndexMut` of `StableGraph` (`node_weight_mut`): overwrites node `a`'s
/// weight, keeping its edges.
#[verifier::external_body]
fn stable_graph_set_weight(g: &mut NodeGraph, a: usize, w: NodeContext)
    requires
        graph_entries(*old(g)).dom().contains(a),
        a < u32::MAX,
    ensures
        graph_entries(*final(g)) == graph_entries(*old(g)).insert(
            a,
            (w, graph_entries(*old(g))[a].1),
        ),
        graph_edge_count(*final(g)) == graph_edge_count(*old(g)),
{
    g[NodeIndex::new(a)] = w;
}

/// `StableGraph::edges_directed(a, Outgoing)`: node `a`'s outgoing edges as
/// `(target, weight)` pairs, in the graph's order (most recent first).
#[verifier::external_body]
fn stable_graph_outgoing(g: &NodeGraph, a: usize) -> (r: Vec<
    (usize, Relationship),
>)
    requires
        graph_entries(*g).dom().contains(a),
        a < u32::MAX,
    ensures
        r@ == graph_entries(*g)[a].1,
{
    g.edges_directed(NodeIndex::new(a), Direction::Outgoing).map(|e| (e.target().index(), *e.weight())).collect()
}

/// `StableGraph::node_count`: the number of live nodes.
#[verifier::external_body]
fn stable_graph_node_count(g: &NodeGraph) -> (n: usize)
    requires
        entries_sane(graph_entries(*g)),
    ensures
        n == graph_entries(*g).dom().len(),
{
    g.node_count()
}

/// The computation graph.
pub struct Graph {
    inner: NodeGraph,
}

impl Graph {
    /// Each live node's metadata and outgoing edges.
    pub closed spec fn entries(&self) -> Map<usize, (NodeContext, OutEdges)> {
        graph_entries(self.inner)
    }

    /// The number of edges.
    pub closed spec fn edge_count(&self) -> nat {
        graph_edge_count(self.inner)
    }

    /// Live node indices with their metadata.
    pub open spec fn nodes(&self) -> Map<usize, NodeContext> {
        Map::new(|k: usize| self.entries().dom().contains(k), |k: usize| self.entries()[k].0)
    }

    /// Whether `a` is a live node.
    pub open spec fn has(&self, a: usize) -> bool {
        self.entries().dom().contains(a)
    }

    /// Outgoing edges of live node `a`, most recently added first.
    pub open spec fn out(&self, a: usize) -> OutEdges {
        self.entries()[a].1
    }

    /// Metadata of live node `a`.
    pub open spec fn ctx(&self, a: usize) -> NodeContext {
        self.entries()[a].0
    }

    /// Finite node set, every index below `u32::MAX`.
    pub open spec fn wf(&self) -> bool {
        entries_sane(self.entries())
    }

    /// An empty graph.
    pub fn new() -> (g: Self)
        ensures
            g.wf(),
            g.entries() == GraphEntries::empty(),
            g.edge_count() == 0,
    {
        Graph { inner: stable_graph_new() }
    }

    /// Marks node `a` as scheduled in `epoch` and returns its depth, unless it
    /// was already scheduled in `epoch` or is not a node (then `None`).
    pub fn can_schedule(&mut self, a: usize, epoch: usize) -> (r: Option<u32>)
        requires
            old(self).wf(),
        ensures
            final(self).wf(),
            old(self).has(a) && old(self).ctx(a).sched_epoch != epoch ==> {
                &&& r == Some(old(self).ctx(a).depth)
                &&& final(self).entries() == old(self).entries().insert(
                    a,
                    (NodeContext { sched_epoch: epoch, ..old(self).ctx(a) }, old(self).out(a)),
                )
            },
            !(old(self).has(a) && old(self).ctx(a).sched_epoch != epoch) ==> {
                &&& r is None
                &&& final(self).entries() == old(self).entries()
            },
            final(self).edge_count() == old(self).edge_count(),
    {
        if a >= u32::MAX as usize {
            return None;
        }
        match stable_graph_node_weight(&self.inner, a) {
            Some(ctx) => {
                if ctx.sched_epoch == epoch {
                    None
                } else {
                    let new_ctx = NodeContext { sched_epoch: epoch, ..ctx };
                    stable_graph_set_weight(&mut self.inner, a, new_ctx);
                    proof {
                        assert(graph_entries(self.inner).dom() =~= old(self).entries().dom().insert(a));
                        assert(graph_entries(self.inner).dom() =~= old(self).entries().dom());
                    }
                    Some(ctx.depth)
                }
            },
            None => None,
        }
    }

    /// The metadata of node `a`, `None` when it is not a node.
    pub fn node(&self, a: usize) -> (r: Option<NodeContext>)
        requires
            self.wf(),
        ensures
            self.has(a) ==> r == Some(self.ctx(a)),
            !self.has(a) ==> r is None,
    {
        if a >= u32::MAX as usize {
            return None;
        }
        stable_graph_node_weight(&self.inner, a)
    }

    /// Overwrites the metadata of node `a`, keeping its edges.
    pub fn set_node(&mut self, a: usize, c: NodeContext)
        requires
            old(self).wf(),
            old(self).has(a),
        ensures
            final(self).wf(),
            final(self).entries() == old(self).entries().insert(a, (c, old(self).out(a))),
            final(self).edge_count() == old(self).edge_count(),
    {
        stable_graph_set_weight(&mut self.inner, a, c);
        proof {
            assert(graph_entries(self.inner).dom() =~= old(self).entries().dom());
        }
    }

    /// Children of `a` reached through a `Trigger` edge, in edge order.
    pub fn triggering_edges(&self, a: usize) -> (r: Vec<usize>)
        requires
            self.wf(),
            self.has(a),
        ensures
            r@ == trigger_targets(self.out(a)),
    {
        let edges = stable_graph_outgoing(&self.inner, a);
        let mut r: Vec<usize> = Vec::new();
        let mut i: usize = 0;
        while i < edges.len()
            invariant
                0 <= i <= edges@.len(),
                edges@ == self.out(a),
                r@ == trigger_targets(edges@.subrange(0, i as int)),
            decreases edges@.len() - i,
        {
            let (child, rel) = edges[i];
            proof {
                lemma_trigger_targets_step(edges@, i as int);
            }
            if rel.is_trigger() {
                r.push(child);
            }
            i = i + 1;
        }
        assert(edges@.subrange(0, edges@.len() as int) =~= edges@);
        r
    }

    /// All children of `a`, in edge order.
    pub fn edges(&self, a: usize) -> (r: Vec<usize>)
        requires
            self.wf(),
            self.has(a),
        ensures
            r@ == self.out(a).map_values(|e: (usize, Relationship)| e.0),
    {
        let edges = stable_graph_outgoing(&self.inner, a);
        let mut r: Vec<usize> = Vec::new();
        let mut i: usize = 0;
        while i < edges.len()
            invariant
                0 <= i <= edges@.len(),
                edges@ == self.out(a),
                r@ == edges@.subrange(0, i as int).map_values(|e: (usize, Relationship)| e.0),
            decreases edges@.len() - i,
        {
            let (child, _rel) = edges[i];
            r.push(child);
            i = i + 1;
            assert(r@ =~= edges@.subrange(0, i as int).map_values(|e: (usize, Relationship)| e.0));
        }
        assert(edges@.subrange(0, edges@.len() as int) =~= edges@);
        r
    }

    /// Marks node `a` as poisoned.
    pub fn mark_poisoned(&mut self, a: usize)
        requires
            old(self).wf(),
            old(self).has(a),
        ensures
            final(self).wf(),
            final(self).entries() == old(self).entries().insert(
                a,
                (NodeContext { poisoned: true, ..old(self).ctx(a) }, old(self).out(a)),
            ),
            final(self).edge_count() == old(self).edge_count(),
    {
        let c = stable_graph_node_weight(&self.inner, a).unwrap();
        self.set_node(a, NodeContext { poisoned: true, ..c });
    }

    /// Adds a node and returns its index, which was not in use.
    pub fn add_node(&mut self, weight: NodeContext) -> (i: usize)
        requires
            old(self).wf(),
            old(self).entries().dom().len() < u32::MAX,
        ensures
            final(self).wf(),
            !old(self).has(i),
            final(self).entries() == old(self).entries().insert(i, (weight, Seq::empty())),
            final(self).edge_count() == old(self).edge_count(),
    {
        let i = stable_graph_add_node(&mut self.inner, weight);
        proof {
            assert(graph_entries(self.inner).dom() =~= old(self).entries().dom().insert(i));
        }
        i
    }

    /// Adds the edge `parent -> child` and returns `true`, unless the graph
    /// already holds `u32::MAX` edges (all its edge indices): then `false`,
    /// and no change.
    pub fn add_edge(&mut self, parent: usize, child: usize, relationship: Relationship) -> (ok: bool)
        requires
            old(self).wf(),
            old(self).has(parent),
            old(self).has(child),
        ensures
            final(self).wf(),
            ok ==> final(self).entries() == old(self).entries().insert(
                parent,
                (old(self).ctx(parent), seq![(child, relationship)] + old(self).out(parent)),
            ),
            !ok ==> final(self).entries() == old(self).entries(),
            ok == (old(self).edge_count() < u32::MAX),
            ok ==> final(self).edge_count() == old(self).edge_count() + 1,
            !ok ==> final(self).edge_count() == old(self).edge_count(),
    {
        let ok = stable_graph_try_add_edge(&mut self.inner, parent, child, relationship);
        proof {
            assert(graph_entries(self.inner).dom() =~= old(self).entries().dom().insert(parent)
                || graph_entries(self.inner) == old(self).entries());
            assert(old(self).entries().dom().insert(parent) =~= old(self).entries().dom());
        }
        ok
    }

    /// Removes node `a` and every edge touching it; no change when `a` is
    /// not a node.
    pub fn remove_node(&mut self, a: usize)
        requires
            old(self).wf(),
        ensures
            final(self).wf(),
            old(self).has(a) ==> final(self).entries() == entries_without(old(self).entries(), a),
            !old(self).has(a) ==> final(self).entries() == old(self).entries(),
            final(self).edge_count() <= old(self).edge_count(),
    {
        if a >= u32::MAX as usize {
            return;
        }
        let _ = stable_graph_remove_node(&mut self.inner, a);
        proof {
            if old(self).has(a) {
                assert(graph_entries(self.inner).dom() =~= old(self).entries().dom().remove(a));
            }
        }
    }

    /// The number of live nodes.
    pub fn node_count(&self) -> (n: usize)
        requires
            self.wf(),
        ensures
            n == self.entries().dom().len(),
    {
        stable_graph_node_count(&self.inner)
    }

    /// Whether the graph holds no node.
    pub fn is_empty(&self) -> (b: bool)
        requires
            self.wf(),
        ensures
            b == (self.entries().dom().len() == 0),
    {
        self.node_count() == 0
    }
}

/// Targets of the `Trigger` edges in `es`, in order.
pub open spec fn trigger_targets(es: OutEdges) -> Seq<usize>
    decreases es.len(),
{
    if es.len() == 0 {
        Seq::empty()
    } else if es.last().1 is Trigger {
        trigger_targets(es.drop_last()).push(es.last().0)
    } else {
        trigger_targets(es.drop_last())
    }
}

/// `trigger_targets` keeps at most every edge.
pub proof fn lemma_trigger_targets_len(es: OutEdges)
    ensures
        trigger_targets(es).len() <= es.len(),
    decreases es.len(),
{
    if es.len() > 0 {
        lemma_trigger_targets_len(es.drop_last());
    }
}

/// Every target `trigger_targets` lists is the target of a `Trigger` edge.
pub proof fn lemma_trigger_targets_from(es: OutEdges, i: int)
    requires
        0 <= i < trigger_targets(es).len(),
    ensures
        exists|j: int| 0 <= j < es.len() && #[trigger] es[j].0 == trigger_targets(es)[i] && es[j].1 is Trigger,
    decreases es.len(),
{
    lemma_trigger_targets_len(es.drop_last());
    if es.last().1 is Trigger && i == trigger_targets(es).len() - 1 {
        assert(es[es.len() - 1].0 == trigger_targets(es)[i]);
    } else {
        lemma_trigger_targets_from(es.drop_last(), i);
        let j = choose|j: int| 0 <= j < es.drop_last().len() && #[trigger] es.drop_last()[j].0 == trigger_targets(es.drop_last())[i] && es.drop_last()[j].1 is Trigger;
        assert(es[j] == es.drop_last()[j]);
    }
}

/// One more edge extends `trigger_targets` by at most its target.
pub proof fn lemma_trigger_targets_step(es: OutEdges, i: int)
    requires
        0 <= i < es.len(),
    ensures
        trigger_targets(es.subrange(0, i + 1)) == if es[i].1 is Trigger {
            trigger_targets(es.subrange(0, i)).push(es[i].0)
        } else {
            trigger_targets(es.subrange(0, i))
        },
{
    assert(es.subrange(0, i + 1).drop_last() =~= es.subrange(0, i));
}

/// Only `Trigger` edges pass a change on: a node is among the targets a
/// broadcast schedules exactly when a `Trigger` edge leads to it; an
/// `Observe` edge alone never schedules its target.
pub proof fn law_only_trigger_edges_schedule(es: OutEdges, t: usize)
    ensures
        trigger_targets(es).contains(t) <==> exists|j: int|
            0 <= j < es.len() && #[trigger] es[j] == (t, Relationship::Trigger),
    decreases es.len(),
{
    if es.len() > 0 {
        law_only_trigger_edges_schedule(es.drop_last(), t);
        let rest = es.drop_last();
        if trigger_targets(es).contains(t) {
            let i = choose|i: int| 0 <= i < trigger_targets(es).len() && trigger_targets(es)[i] == t;
            if es.last().1 is Trigger && i == trigger_targets(es).len() - 1 {
                assert(es[es.len() - 1] == (t, Relationship::Trigger));
            } else {
                assert(trigger_targets(rest)[i] == t);
                assert(trigger_targets(rest).contains(t));
                let j = choose|j: int| 0 <= j < rest.len() && #[trigger] rest[j] == (t, Relationship::Trigger);
                assert(es[j] == rest[j]);
            }
        }
        if exists|j: int| 0 <= j < es.len() && #[trigger] es[j] == (t, Relationship::Trigger) {
            let j = choose|j: int| 0 <= j < es.len() && #[trigger] es[j] == (t, Relationship::Trigger);
            if j == es.len() - 1 {
                assert(trigger_targets(es) == trigger_targets(rest).push(t));
                assert(trigger_targets(es)[trigger_targets(rest).len() as int] == t);
            } else {
                assert(rest[j] == es[j]);
                assert(trigger_targets(rest).contains(t));
                let i = choose|i: int| 0 <= i < trigger_targets(rest).len() && trigger_targets(rest)[i] == t;
                if es.last().1 is Trigger {
                    assert(trigger_targets(es)[i] == t);
                } else {
                    assert(trigger_targets(es)[i] == t);
                }
            }
        }
    }
}

} // verus!
