use wavelet::graph::{Graph, NodeContext};
use wavelet::Relationship;

fn create_test_node() -> NodeContext {
    NodeContext::new(1)
}

#[test]
fn graph_test_add_node_and_basic_structure() {
    let mut graph = Graph::new();
    let node_id = graph.add_node(create_test_node());
    assert_eq!(node_id, 0);
}

#[test]
fn graph_test_add_edge() {
    let mut graph = Graph::new();

    let parent = graph.add_node(create_test_node());
    let child = graph.add_node(create_test_node());

    graph.add_edge(parent, child, Relationship::Trigger);

    let children = graph.triggering_edges(parent);
    assert_eq!(children, vec![child]);
}

#[test]
fn graph_test_triggering_edges_filters_correctly() {
    let mut graph = Graph::new();

    let parent = graph.add_node(create_test_node());
    let trigger_child = graph.add_node(create_test_node());
    let observe_child = graph.add_node(create_test_node());

    graph.add_edge(parent, trigger_child, Relationship::Trigger);
    graph.add_edge(parent, observe_child, Relationship::Observe);

    let triggering_children = graph.triggering_edges(parent);

    assert_eq!(triggering_children.len(), 1);
    assert_eq!(triggering_children[0], trigger_child);
}

#[test]
fn graph_test_can_schedule_epoch_deduplication() {
    let mut graph = Graph::new();
    let node = graph.add_node(create_test_node());

    let result1 = graph.can_schedule(node, 1);
    assert_eq!(result1, Some(1));

    let result2 = graph.can_schedule(node, 1);
    assert_eq!(result2, None);

    let result3 = graph.can_schedule(node, 2);
    assert_eq!(result3, Some(1));
}

#[test]
fn graph_test_node_context_creation() {
    let context = create_test_node();

    assert_eq!(context.sched_epoch, 0);
    assert_eq!(context.depth, 1);
}

#[test]
fn graph_test_multiple_triggering_edges() {
    let mut graph = Graph::new();

    let parent = graph.add_node(create_test_node());
    let child1 = graph.add_node(create_test_node());
    let child2 = graph.add_node(create_test_node());
    let child3 = graph.add_node(create_test_node());

    graph.add_edge(parent, child1, Relationship::Trigger);
    graph.add_edge(parent, child2, Relationship::Trigger);
    graph.add_edge(parent, child3, Relationship::Observe);

    let mut triggering_children = graph.triggering_edges(parent);
    triggering_children.sort();

    assert_eq!(triggering_children.len(), 2);
    assert!(triggering_children.contains(&child1));
    assert!(triggering_children.contains(&child2));
    assert!(!triggering_children.contains(&child3));
}

#[test]
fn graph_newest_edge_comes_first_and_removal_drops_edges() {
    let mut graph = Graph::new();
    let parent = graph.add_node(NodeContext::new(0));
    let a = graph.add_node(NodeContext::new(1));
    let b = graph.add_node(NodeContext::new(1));
    assert!(graph.add_edge(parent, a, Relationship::Trigger));
    assert!(graph.add_edge(parent, b, Relationship::Observe));
    assert_eq!(graph.edges(parent), vec![b, a]);
    graph.remove_node(b);
    assert_eq!(graph.edges(parent), vec![a]);
    assert_eq!(graph.node_count(), 2);
    assert_eq!(graph.node(b), None);
    // removing a node that is not there changes nothing
    graph.remove_node(b);
    assert_eq!(graph.node_count(), 2);
    assert!(!graph.is_empty());
}

#[test]
fn graph_poison_marks_node() {
    let mut graph = Graph::new();
    let n = graph.add_node(NodeContext::new(3));
    graph.mark_poisoned(n);
    let c = graph.node(n).unwrap();
    assert!(c.poisoned);
    assert_eq!(c.depth, 3);
}
