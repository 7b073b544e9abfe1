use anima::soul::edge::{Edge, RelationType};
use anima::soul::graph::Graph;
use anima::soul::node::Node;

fn node(id: u128, label: &str) -> Node {
    Node {
        id,
        label: label.to_string(),
        data: String::new(),
        emotion: None,
        tags: vec![],
        created_at: 0,
    }
}

fn edge(from: u128, to: u128, relation: RelationType) -> Edge {
    Edge { from, to, relation, weight: 1.0f32.to_bits(), last_updated: 0 }
}

fn labels(found: Vec<&Node>) -> Vec<String> {
    found.into_iter().map(|n| n.label.clone()).collect()
}

#[test]
fn new_graph_is_empty() {
    let graph = Graph::new();
    assert!(graph.nodes.is_empty());
    assert!(graph.edges.is_empty());
    assert!(graph.neighbors(1).is_empty());
}

#[test]
fn add_node_keeps_the_last_node_of_an_identifier() {
    let mut graph = Graph::new();
    graph.add_node(node(1, "first"));
    graph.add_node(node(2, "other"));
    graph.add_node(node(1, "second"));
    assert_eq!(graph.nodes.len(), 2);
    assert_eq!(graph.nodes[&1].label, "second");
    assert_eq!(graph.nodes[&2].label, "other");
}

#[test]
fn neighbors_follow_outgoing_edges_in_order() {
    let mut graph = Graph::new();
    graph.add_node(node(1, "a"));
    graph.add_node(node(2, "b"));
    graph.add_node(node(3, "c"));
    graph.edges.push(edge(1, 3, RelationType::Inspires));
    graph.edges.push(edge(2, 1, RelationType::Contradicts));
    graph.edges.push(edge(1, 2, RelationType::Extends));
    graph.edges.push(edge(1, 3, RelationType::MergesWith));
    assert_eq!(labels(graph.neighbors(1)), vec!["c", "b", "c"]);
    assert_eq!(labels(graph.neighbors(2)), vec!["a"]);
    assert!(graph.neighbors(3).is_empty());
}

#[test]
fn neighbors_skip_edges_to_missing_nodes() {
    let mut graph = Graph::new();
    graph.add_node(node(1, "a"));
    graph.add_node(node(2, "b"));
    graph.edges.push(edge(1, 9, RelationType::DreamedIn));
    graph.edges.push(edge(1, 2, RelationType::ForgottenBy));
    graph.edges.push(edge(9, 1, RelationType::Inspires));
    assert_eq!(labels(graph.neighbors(1)), vec!["b"]);
    assert_eq!(labels(graph.neighbors(9)), vec!["a"]);
}

#[test]
fn relation_types_compare_by_variant() {
    assert_eq!(RelationType::Inspires, RelationType::Inspires);
    assert_ne!(RelationType::Inspires, RelationType::Extends);
    let copy = RelationType::MergesWith;
    assert_eq!(copy, RelationType::MergesWith);
}
