//! Node identity resolution: from a reference in a candidate record to the
//! key under which the store is asked for the node.
//!
//! A reference made of decimal digits only names a node by the identity the
//! store assigned. Any other reference is an external identity. Content is
//! compared exactly: no trimming, no folding of case.

use vstd::prelude::*;
use crate::graph::{GraphView, MemoryGraph, is_first_match, lookup, node_matches, lemma_lookup_first, lemma_lookup_none, lemma_lookup_some};
use crate::store::{NodeKey, NodeKeyView};
use crate::text::{digit, is_digit};

verus! {

/// Why a reference names no key.
#[derive(Clone, Copy, Debug, PartialEq, Eq, Structural)]
pub enum ResolveError {
    /// The reference is made of digits only (or of nothing at all) and is no
    /// identity that a store can have assigned: it is empty, or too large.
    InvalidInternalId,
}

/// Made of decimal digits only. The empty text is, vacuously.
pub open spec fn is_numeric(s: Seq<char>) -> bool {
    forall|i: int| 0 <= i < s.len() ==> is_digit(#[trigger] s[i])
}

/// The number that a text of decimal digits denotes.
pub open spec fn decimal_value(s: Seq<char>) -> nat
    decreases s.len(),
{
    if s.len() == 0 {
        0
    } else {
        decimal_value(s.drop_last()) * 10 + (s.last() as u8 - 48) as nat
    }
}

/// The key that a reference stands for.
pub open spec fn key_of(reference: Seq<char>) -> Result<NodeKeyView, ResolveError> {
    if !is_numeric(reference) {
        Ok(NodeKeyView::ExternalId(reference))
    } else if reference.len() > 0 && decimal_value(reference) <= i64::MAX {
        Ok(NodeKeyView::Id(decimal_value(reference) as i64))
    } else {
        Err(ResolveError::InvalidInternalId)
    }
}

/// The node that a reference resolves to in a graph.
pub open spec fn resolution(g: GraphView, reference: Seq<char>) -> Result<Option<i64>, ResolveError> {
    match key_of(reference) {
        Ok(key) => Ok(lookup(g.nodes, key)),
        Err(e) => Err(e),
    }
}

/// The node whose content is exactly `text`.
pub open spec fn content_resolution(g: GraphView, text: Seq<char>) -> Option<i64> {
    lookup(g.nodes, NodeKeyView::Content(text))
}

/// The key under which to look for the node that `reference` names.
pub fn reference_key(reference: &str) -> (r: Result<NodeKey, ResolveError>)
    ensures
        match r {
            Ok(key) => key_of(reference@) == Ok::<NodeKeyView, ResolveError>(key@),
            Err(e) => key_of(reference@) == Err::<NodeKeyView, ResolveError>(e),
        },
{
    let mut numeric = true;
    let mut fits = true;
    let mut empty = true;
    let mut value: i64 = 0;
    assert(reference@.take(0) =~= Seq::<char>::empty());
    for c in it: reference.chars()
        invariant
            it.seq() == reference@,
            empty == (it.index() == 0),
            numeric == is_numeric(reference@.take(it.index())),
            0 <= value,
            numeric && fits ==> value == decimal_value(reference@.take(it.index())),
            numeric && !fits ==> decimal_value(reference@.take(it.index())) > i64::MAX,
    {
        let ghost before = reference@.take(it.index());
        let ghost after = reference@.take(it.index() + 1);
        assert(after.drop_last() =~= before);
        assert(after.last() == c);
        assert(is_numeric(after) == (is_numeric(before) && is_digit(c))) by {
            if is_numeric(before) && is_digit(c) {
                assert forall|i: int| 0 <= i < after.len() implies is_digit(#[trigger] after[i]) by {
                    if i < before.len() {
                        assert(after[i] == before[i]);
                    }
                }
            } else if is_numeric(after) {
                assert(is_digit(after[after.len() - 1]));
                assert forall|i: int| 0 <= i < before.len() implies is_digit(
                    #[trigger] before[i],
                ) by {
                    assert(before[i] == after[i]);
                }
            }
        }
        empty = false;
        if !digit(c) {
            numeric = false;
        } else if fits {
            let d: i64 = (c as u8 - 48) as i64;
            if value > 922337203685477580 || (value == 922337203685477580 && d > 7) {
                fits = false;
            } else {
                value = value * 10 + d;
            }
        }
    }
    assert(reference@.take(reference@.len() as int) =~= reference@);
    if !numeric {
        Ok(NodeKey::ExternalId(reference.to_owned()))
    } else if !empty && fits {
        Ok(NodeKey::Id(value))
    } else {
        Err(ResolveError::InvalidInternalId)
    }
}

/// The key under which to look for the node whose content is `text`.
pub fn content_key(text: &str) -> (key: NodeKey)
    ensures
        key@ == NodeKeyView::Content(text@),
{
    NodeKey::Content(text.to_owned())
}

/// Resolves a reference against a graph in memory. `Ok(None)` says that no
/// node matches, which is no error.
pub fn resolve(graph: &MemoryGraph, reference: &str) -> (r: Result<Option<i64>, ResolveError>)
    ensures
        r == resolution(graph@, reference@),
{
    match reference_key(reference) {
        Ok(key) => Ok(graph.find(&key)),
        Err(e) => Err(e),
    }
}

/// Resolves a text to the first node that has exactly this content.
pub fn resolve_by_content(graph: &MemoryGraph, text: &str) -> (r: Option<i64>)
    ensures
        r == content_resolution(graph@, text@),
{
    graph.find(&content_key(text))
}

/// A reference of digits that denotes the identity of an existing node
/// resolves to that identity.
pub proof fn lemma_resolve_internal(g: GraphView, reference: Seq<char>, i: int)
    requires
        is_numeric(reference),
        reference.len() > 0,
        0 <= i < g.nodes.len(),
        g.nodes[i].id == decimal_value(reference),
    ensures
        resolution(g, reference) == Ok::<Option<i64>, ResolveError>(Some(g.nodes[i].id)),
{
    let key = NodeKeyView::Id(g.nodes[i].id);
    assert(node_matches(g.nodes[i], key));
    lemma_lookup_some(g.nodes, key);
}

/// A reference that is not made of digits resolves to the identity of the
/// first node that carries it as its external identity.
pub proof fn lemma_resolve_external(g: GraphView, reference: Seq<char>, i: int)
    requires
        !is_numeric(reference),
        is_first_match(g.nodes, NodeKeyView::ExternalId(reference), i),
    ensures
        resolution(g, reference) == Ok::<Option<i64>, ResolveError>(Some(g.nodes[i].id)),
{
    lemma_lookup_first(g.nodes, NodeKeyView::ExternalId(reference), i);
}

/// A reference that names a key which no node answers to resolves to
/// `None`.
pub proof fn lemma_resolve_unmatched(g: GraphView, reference: Seq<char>)
    requires
        key_of(reference) matches Ok(key) && forall|j: int|
            0 <= j < g.nodes.len() ==> !node_matches(#[trigger] g.nodes[j], key),
    ensures
        resolution(g, reference) == Ok::<Option<i64>, ResolveError>(None),
{
    lemma_lookup_none(g.nodes, key_of(reference)->Ok_0);
}

/// Content is matched exactly: a text resolves to a node only if that
/// node's content equals it character for character, and a text that equals
/// no node's content resolves to nothing.
pub proof fn lemma_content_is_exact(g: GraphView, text: Seq<char>)
    ensures
        content_resolution(g, text) matches Some(id) ==> exists|i: int|
            0 <= i < g.nodes.len() && (#[trigger] g.nodes[i]).content == text && g.nodes[i].id
                == id,
        (forall|i: int| 0 <= i < g.nodes.len() ==> (#[trigger] g.nodes[i]).content != text)
            ==> content_resolution(g, text) is None,
{
    let key = NodeKeyView::Content(text);
    lemma_lookup_some(g.nodes, key);
    if content_resolution(g, text) is Some {
        let id = content_resolution(g, text)->Some_0;
        let i = choose|i: int|
            0 <= i < g.nodes.len() && node_matches(#[trigger] g.nodes[i], key) && g.nodes[i].id
                == id;
        assert(g.nodes[i].content == text);
    }
    if forall|i: int| 0 <= i < g.nodes.len() ==> (#[trigger] g.nodes[i]).content != text {
        assert forall|j: int| 0 <= j < g.nodes.len() implies !node_matches(
            #[trigger] g.nodes[j],
            key,
        ) by {}
        lemma_lookup_none(g.nodes, key);
    }
}

} // verus!
