use graph_ingest::graph::{MemoryGraph, Node};
use graph_ingest::reltype::RelType;
use graph_ingest::store::{Link, NodeKey, Reply, Request};

fn node(id: i64, external_id: Option<&str>, content: &str) -> Node {
    Node { id, external_id: external_id.map(|s| s.to_string()), content: content.to_string() }
}

fn sample() -> MemoryGraph {
    let mut g = MemoryGraph::new();
    assert!(g.add_node(node(10, Some("A"), "intro")));
    assert!(g.add_node(node(11, Some("B"), "conclusion")));
    assert!(g.add_node(node(12, None, "intro")));
    assert!(g.add_node(node(13, Some("A"), "appendix")));
    g
}

#[test]
fn new_graph_is_empty() {
    let g = MemoryGraph::new();
    assert_eq!(g.node_count(), 0);
    assert_eq!(g.edge_total(), 0);
    assert_eq!(g.find(&NodeKey::Id(0)), None);
}

#[test]
fn a_taken_identity_is_not_added_again() {
    let mut g = sample();
    assert!(!g.add_node(node(11, Some("Z"), "other")));
    assert_eq!(g.node_count(), 4);
    assert_eq!(g.find(&NodeKey::ExternalId("Z".to_string())), None);
    assert!(g.has_node(11));
    assert!(!g.has_node(14));
}

#[test]
fn lookups_yield_the_first_match_in_store_order() {
    let g = sample();
    assert_eq!(g.find(&NodeKey::Id(12)), Some(12));
    assert_eq!(g.find(&NodeKey::Id(99)), None);
    assert_eq!(g.find(&NodeKey::ExternalId("A".to_string())), Some(10));
    assert_eq!(g.find(&NodeKey::ExternalId("B".to_string())), Some(11));
    assert_eq!(g.find(&NodeKey::ExternalId("C".to_string())), None);
    assert_eq!(g.find(&NodeKey::Content("intro".to_string())), Some(10));
    assert_eq!(g.find(&NodeKey::Content("appendix".to_string())), Some(13));
    assert_eq!(g.find(&NodeKey::Content("Intro".to_string())), None);
}

#[test]
fn a_store_creates_whatever_it_is_told_to() {
    let mut g = sample();
    let link = Link { start: 10, end: 11, rel_type: RelType::similar_to() };
    assert_eq!(g.execute(&Request::Probe(link.clone())), Reply::Found(false));
    assert_eq!(g.execute(&Request::Create(link.clone())), Reply::Done);
    assert_eq!(g.execute(&Request::Probe(link.clone())), Reply::Found(true));
    assert_eq!(g.execute(&Request::Create(link.clone())), Reply::Done);
    assert_eq!(g.edge_count(10, 11, "SIMILAR_TO"), 2);
    assert_eq!(g.edge_count(11, 10, "SIMILAR_TO"), 0);
    assert_eq!(g.edge_count(10, 11, "PART_OF"), 0);
    assert_eq!(g.edge_total(), 2);
}

#[test]
fn a_creation_between_missing_nodes_creates_nothing() {
    let mut g = sample();
    let link = Link { start: 10, end: 99, rel_type: RelType::similar_to() };
    assert_eq!(g.execute(&Request::Create(link.clone())), Reply::Done);
    assert_eq!(g.execute(&Request::Probe(link)), Reply::Found(false));
    let link = Link { start: 98, end: 10, rel_type: RelType::similar_to() };
    assert_eq!(g.execute(&Request::Create(link)), Reply::Done);
    assert_eq!(g.edge_total(), 0);
}

#[test]
fn a_lookup_is_answered_with_the_node() {
    let mut g = sample();
    assert_eq!(g.execute(&Request::Lookup(NodeKey::ExternalId("B".to_string()))), Reply::Node(Some(11)));
    assert_eq!(g.execute(&Request::Lookup(NodeKey::Content("nothing".to_string()))), Reply::Node(None));
    assert_eq!(g.node_count(), 4);
    assert_eq!(g.edge_total(), 0);
}
