use graph_ingest::graph::{MemoryGraph, Node};
use graph_ingest::resolver::{content_key, reference_key, resolve, resolve_by_content, ResolveError};
use graph_ingest::store::NodeKey;

fn graph() -> MemoryGraph {
    let mut g = MemoryGraph::new();
    g.add_node(Node { id: 7, external_id: Some("A".to_string()), content: "intro".to_string() });
    g.add_node(Node { id: 8, external_id: Some("B".to_string()), content: "Conclusion ".to_string() });
    g.add_node(Node { id: 9, external_id: None, content: "intro".to_string() });
    g.add_node(Node { id: 42, external_id: Some("7".to_string()), content: "seven".to_string() });
    g
}

#[test]
fn digits_name_the_identity_that_the_store_assigned() {
    assert_eq!(resolve(&graph(), "9"), Ok(Some(9)));
    assert_eq!(resolve(&graph(), "42"), Ok(Some(42)));
    assert_eq!(resolve(&graph(), "0042"), Ok(Some(42)));
}

#[test]
fn digits_never_name_an_external_identity() {
    assert_eq!(resolve(&graph(), "7"), Ok(Some(7)));
}

#[test]
fn other_references_name_an_external_identity() {
    assert_eq!(resolve(&graph(), "A"), Ok(Some(7)));
    assert_eq!(resolve(&graph(), "B"), Ok(Some(8)));
}

#[test]
fn a_reference_that_matches_nothing_resolves_to_none() {
    assert_eq!(resolve(&graph(), "C"), Ok(None));
    assert_eq!(resolve(&graph(), "a"), Ok(None));
    assert_eq!(resolve(&graph(), "1000"), Ok(None));
    assert_eq!(resolve(&graph(), "-7"), Ok(None));
    assert_eq!(resolve(&graph(), "7 "), Ok(None));
}

#[test]
fn digits_that_are_no_identity_are_an_error() {
    assert_eq!(resolve(&graph(), ""), Err(ResolveError::InvalidInternalId));
    assert_eq!(resolve(&graph(), "9223372036854775808"), Err(ResolveError::InvalidInternalId));
    assert_eq!(
        resolve(&graph(), "99999999999999999999999999"),
        Err(ResolveError::InvalidInternalId)
    );
}

#[test]
fn the_largest_identity_is_still_one() {
    assert_eq!(reference_key("9223372036854775807"), Ok(NodeKey::Id(i64::MAX)));
    assert_eq!(reference_key("09223372036854775807"), Ok(NodeKey::Id(i64::MAX)));
    assert_eq!(reference_key("9223372036854775799"), Ok(NodeKey::Id(9223372036854775799)));
    assert_eq!(reference_key("0"), Ok(NodeKey::Id(0)));
    assert_eq!(reference_key("000"), Ok(NodeKey::Id(0)));
}

#[test]
fn keys_keep_the_text_as_it_is() {
    assert_eq!(reference_key("12a"), Ok(NodeKey::ExternalId("12a".to_string())));
    assert_eq!(reference_key(" 12"), Ok(NodeKey::ExternalId(" 12".to_string())));
    assert_eq!(reference_key("\u{661}"), Ok(NodeKey::ExternalId("\u{661}".to_string())));
    assert_eq!(content_key("  x "), NodeKey::Content("  x ".to_string()));
}

#[test]
fn content_resolves_to_the_first_node_that_has_it() {
    assert_eq!(resolve_by_content(&graph(), "intro"), Some(7));
    assert_eq!(resolve_by_content(&graph(), "seven"), Some(42));
}

#[test]
fn content_is_not_matched_loosely() {
    let g = graph();
    assert_eq!(resolve_by_content(&g, "Intro"), None);
    assert_eq!(resolve_by_content(&g, "intro "), None);
    assert_eq!(resolve_by_content(&g, " intro"), None);
    assert_eq!(resolve_by_content(&g, "Conclusion"), None);
    assert_eq!(resolve_by_content(&g, "conclusion "), None);
    assert_eq!(resolve_by_content(&g, "Conclusion "), Some(8));
    assert_eq!(resolve_by_content(&g, ""), None);
}
