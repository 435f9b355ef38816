//! A property graph held in memory, and what a store answers to each
//! request.
//!
//! [`answer`] is the reference behaviour of a graph store: lookups yield the
//! first matching node in store order, a probe tells whether an edge is
//! there, and a creation adds one edge when both ends exist. It never
//! refuses: a store may hold the same edge twice. Keeping edges single is the
//! duty of whoever writes to it.

use vstd::prelude::*;
use crate::store::{NodeKey, NodeKeyView, Reply, Request, RequestView, Triple};

verus! {

/// A vertex: the identity that the store assigned, the identity that the
/// application may have given, and the text payload.
#[derive(Debug, PartialEq, Eq)]
pub struct Node {
    pub id: i64,
    pub external_id: Option<String>,
    pub content: String,
}

/// [`Node`] as a mathematical value.
pub struct NodeView {
    pub id: i64,
    pub external_id: Option<Seq<char>>,
    pub content: Seq<char>,
}

impl View for Node {
    type V = NodeView;

    open spec fn view(&self) -> NodeView {
        NodeView {
            id: self.id,
            external_id: match self.external_id {
                Some(s) => Some(s@),
                None => None,
            },
            content: self.content@,
        }
    }
}

impl Clone for Node {
    fn clone(&self) -> (r: Self)
        ensures
            r@ == self@,
    {
        Node {
            id: self.id,
            external_id: match &self.external_id {
                Some(s) => Some(s.clone()),
                None => None,
            },
            content: self.content.clone(),
        }
    }
}

/// The nodes of a vector as mathematical values.
pub open spec fn node_views(nodes: Seq<Node>) -> Seq<NodeView> {
    Seq::new(nodes.len(), |i: int| nodes[i]@)
}

/// A stored edge. Its type is whatever text it was created with.
#[derive(Clone, Debug, PartialEq, Eq)]
pub struct Edge {
    pub start: i64,
    pub end: i64,
    pub rel_type: String,
}

impl View for Edge {
    type V = Triple;

    open spec fn view(&self) -> Triple {
        Triple { start: self.start, end: self.end, rel_type: self.rel_type@ }
    }
}

/// A graph as a mathematical value: nodes in the order in which the store
/// yields them, edges in the order of their creation.
pub struct GraphView {
    pub nodes: Seq<NodeView>,
    pub edges: Seq<Triple>,
}

/// Whether a node answers to a key.
pub open spec fn node_matches(node: NodeView, key: NodeKeyView) -> bool {
    match key {
        NodeKeyView::Id(id) => node.id == id,
        NodeKeyView::ExternalId(s) => node.external_id == Some(s),
        NodeKeyView::Content(s) => node.content == s,
    }
}

/// Node `i` answers to the key and no node before it does.
pub open spec fn is_first_match(nodes: Seq<NodeView>, key: NodeKeyView, i: int) -> bool {
    &&& 0 <= i < nodes.len()
    &&& node_matches(nodes[i], key)
    &&& forall|j: int| 0 <= j < i ==> !node_matches(#[trigger] nodes[j], key)
}

/// The identity of the first node that answers to the key, if any does.
pub open spec fn lookup(nodes: Seq<NodeView>, key: NodeKeyView) -> Option<i64> {
    if exists|i: int| is_first_match(nodes, key, i) {
        Some(nodes[choose|i: int| is_first_match(nodes, key, i)].id)
    } else {
        None
    }
}

/// How often an edge occurs among `edges`.
pub open spec fn count(edges: Seq<Triple>, t: Triple) -> nat
    decreases edges.len(),
{
    if edges.len() == 0 {
        0
    } else {
        count(edges.drop_last(), t) + if edges.last() == t {
            1nat
        } else {
            0nat
        }
    }
}

impl GraphView {
    /// Whether a node with this identity exists.
    pub open spec fn has_node(self, id: i64) -> bool {
        exists|i: int| 0 <= i < self.nodes.len() && (#[trigger] self.nodes[i]).id == id
    }

    /// Whether at least one such edge exists.
    pub open spec fn has_edge(self, t: Triple) -> bool {
        count(self.edges, t) > 0
    }

    /// The graph after a creation statement for `t`: one more edge when both
    /// ends exist, and no change otherwise.
    pub open spec fn create(self, t: Triple) -> GraphView {
        if self.has_node(t.start) && self.has_node(t.end) {
            GraphView { nodes: self.nodes, edges: self.edges.push(t) }
        } else {
            self
        }
    }

    /// No edge occurs twice: between an ordered pair of nodes there is at
    /// most one edge of a type.
    pub open spec fn single_edged(self) -> bool {
        forall|t: Triple| #[trigger] count(self.edges, t) <= 1
    }

    /// No two nodes share an identity.
    pub open spec fn wf(self) -> bool {
        forall|i: int, j: int|
            0 <= i < j < self.nodes.len() ==> (#[trigger] self.nodes[i]).id != (
            #[trigger] self.nodes[j]).id
    }
}

/// The graph after a request, and the reply to it.
pub open spec fn answer(g: GraphView, request: RequestView) -> (GraphView, Reply) {
    match request {
        RequestView::Lookup(key) => (g, Reply::Node(lookup(g.nodes, key))),
        RequestView::Probe(t) => (g, Reply::Found(g.has_edge(t))),
        RequestView::Create(t) => (g.create(t), Reply::Done),
    }
}

/// A key that no node before `i` answers to, and node `i` does, is found at
/// `i`.
pub proof fn lemma_lookup_first(nodes: Seq<NodeView>, key: NodeKeyView, i: int)
    requires
        is_first_match(nodes, key, i),
    ensures
        lookup(nodes, key) == Some(nodes[i].id),
{
    let k = choose|k: int| is_first_match(nodes, key, k);
    if k < i {
        assert(!node_matches(nodes[k], key));
    } else if i < k {
        assert(!node_matches(nodes[i], key));
    }
}

/// A key that no node answers to is not found.
pub proof fn lemma_lookup_none(nodes: Seq<NodeView>, key: NodeKeyView)
    requires
        forall|j: int| 0 <= j < nodes.len() ==> !node_matches(#[trigger] nodes[j], key),
    ensures
        lookup(nodes, key) is None,
{
}

/// Whatever a lookup finds is the identity of a node that answers to the
/// key, and it finds one whenever such a node exists.
pub proof fn lemma_lookup_some(nodes: Seq<NodeView>, key: NodeKeyView)
    ensures
        lookup(nodes, key) matches Some(id) ==> exists|i: int|
            0 <= i < nodes.len() && node_matches(#[trigger] nodes[i], key) && nodes[i].id == id,
        (exists|i: int| 0 <= i < nodes.len() && node_matches(#[trigger] nodes[i], key))
            ==> lookup(nodes, key) is Some,
        key matches NodeKeyView::Id(id) ==> (lookup(nodes, key) is Some ==> lookup(nodes, key)
            == Some(id)),
{
    if exists|i: int| 0 <= i < nodes.len() && node_matches(#[trigger] nodes[i], key) {
        let i = choose|i: int| 0 <= i < nodes.len() && node_matches(#[trigger] nodes[i], key);
        lemma_first_match_exists(nodes, key, i);
    }
    if lookup(nodes, key) is Some {
        let k = choose|k: int| is_first_match(nodes, key, k);
        assert(node_matches(nodes[k], key));
    }
}

/// Where some node up to `i` answers to the key, one of them is the first.
proof fn lemma_first_match_exists(nodes: Seq<NodeView>, key: NodeKeyView, i: int)
    requires
        0 <= i < nodes.len(),
        node_matches(nodes[i], key),
    ensures
        exists|k: int| is_first_match(nodes, key, k),
    decreases i,
{
    if exists|j: int| 0 <= j < i && node_matches(#[trigger] nodes[j], key) {
        let j = choose|j: int| 0 <= j < i && node_matches(#[trigger] nodes[j], key);
        lemma_first_match_exists(nodes, key, j);
    } else {
        assert(is_first_match(nodes, key, i));
    }
}

/// What a lookup finds is a node of the graph.
pub proof fn lemma_found_node_exists(g: GraphView, key: NodeKeyView)
    ensures
        lookup(g.nodes, key) matches Some(id) ==> g.has_node(id),
{
    lemma_lookup_some(g.nodes, key);
    if lookup(g.nodes, key) is Some {
        let id = lookup(g.nodes, key)->Some_0;
        let i = choose|i: int|
            0 <= i < g.nodes.len() && node_matches(#[trigger] g.nodes[i], key) && g.nodes[i].id
                == id;
        assert(g.nodes[i].id == id);
    }
}

/// Appending an edge raises its own count by one and leaves every other
/// count alone.
pub proof fn lemma_count_push(edges: Seq<Triple>, added: Triple, t: Triple)
    ensures
        count(edges.push(added), t) == count(edges, t) + if added == t {
            1nat
        } else {
            0nat
        },
{
    assert(edges.push(added).drop_last() =~= edges);
}

/// A graph in memory.
#[derive(Debug)]
pub struct MemoryGraph {
    nodes: Vec<Node>,
    edges: Vec<Edge>,
}

impl View for MemoryGraph {
    type V = GraphView;

    closed spec fn view(&self) -> GraphView {
        GraphView {
            nodes: node_views(self.nodes@),
            edges: Seq::new(self.edges@.len(), |i: int| self.edges@[i]@),
        }
    }
}

fn key_matches(node: &Node, key: &NodeKey) -> (r: bool)
    ensures
        r == node_matches(node@, key@),
{
    match key {
        NodeKey::Id(id) => node.id == *id,
        NodeKey::ExternalId(s) => match &node.external_id {
            Some(e) => *e == *s,
            None => false,
        },
        NodeKey::Content(s) => node.content == *s,
    }
}

impl MemoryGraph {
    /// A graph without nodes or edges.
    pub fn new() -> (g: MemoryGraph)
        ensures
            g@.nodes.len() == 0,
            g@.edges.len() == 0,
            g@.wf(),
    {
        MemoryGraph { nodes: Vec::new(), edges: Vec::new() }
    }

    /// Adds a node at the end of the store order, unless its identity is
    /// taken. Says whether the node was added.
    pub fn add_node(&mut self, node: Node) -> (added: bool)
        ensures
            added == !old(self)@.has_node(node.id),
            added ==> final(self)@.nodes == old(self)@.nodes.push(node@),
            !added ==> final(self)@.nodes == old(self)@.nodes,
            final(self)@.edges == old(self)@.edges,
            old(self)@.wf() ==> final(self)@.wf(),
    {
        let mut i: usize = 0;
        while i < self.nodes.len()
            invariant
                i <= self.nodes.len(),
                *self == *old(self),
                forall|j: int| 0 <= j < i ==> (#[trigger] self@.nodes[j]).id != node.id,
            decreases self.nodes.len() - i,
        {
            if self.nodes[i].id == node.id {
                assert(self@.nodes[i as int].id == node.id);
                return false;
            }
            i += 1;
        }
        let ghost before = self@;
        self.nodes.push(node);
        assert(self@.nodes =~= before.nodes.push(node@));
        assert(self@.edges =~= before.edges);
        true
    }

    /// The nodes, in store order.
    pub fn nodes(&self) -> (nodes: Vec<Node>)
        ensures
            node_views(nodes@) == self@.nodes,
    {
        let mut nodes: Vec<Node> = Vec::new();
        for i in 0..self.nodes.len()
            invariant
                nodes@.len() == i,
                forall|j: int| 0 <= j < i ==> (#[trigger] nodes@[j])@ == self.nodes@[j]@,
        {
            nodes.push(self.nodes[i].clone());
        }
        assert(node_views(nodes@) =~= self@.nodes);
        nodes
    }

    /// The number of nodes.
    pub fn node_count(&self) -> (n: usize)
        ensures
            n == self@.nodes.len(),
    {
        self.nodes.len()
    }

    /// The number of edges, of any kind.
    pub fn edge_total(&self) -> (n: usize)
        ensures
            n == self@.edges.len(),
    {
        self.edges.len()
    }

    /// How many edges of type `rel_type` lead from `start` to `end`.
    pub fn edge_count(&self, start: i64, end: i64, rel_type: &str) -> (n: usize)
        ensures
            n == count(self@.edges, Triple { start, end, rel_type: rel_type@ }),
    {
        let wanted = rel_type.to_owned();
        let ghost t = Triple { start, end, rel_type: rel_type@ };
        let mut n: usize = 0;
        let mut i: usize = 0;
        assert(self@.edges.take(0) =~= Seq::<Triple>::empty());
        while i < self.edges.len()
            invariant
                i <= self.edges.len(),
                wanted@ == rel_type@,
                t == (Triple { start, end, rel_type: rel_type@ }),
                n <= i,
                n == count(self@.edges.take(i as int), t),
            decreases self.edges.len() - i,
        {
            let e = &self.edges[i];
            assert(self@.edges.take(i + 1) =~= self@.edges.take(i as int).push(e@));
            proof {
                lemma_count_push(self@.edges.take(i as int), e@, t);
            }
            if e.start == start && e.end == end && e.rel_type == wanted {
                assert(e@.rel_type =~= t.rel_type);
                n += 1;
            }
            i += 1;
        }
        assert(self@.edges.take(self@.edges.len() as int) =~= self@.edges);
        n
    }

    /// The identity of the first node that answers to `key`.
    pub fn find(&self, key: &NodeKey) -> (r: Option<i64>)
        ensures
            r == lookup(self@.nodes, key@),
    {
        let mut i: usize = 0;
        while i < self.nodes.len()
            invariant
                i <= self.nodes.len(),
                forall|j: int| 0 <= j < i ==> !node_matches(#[trigger] self@.nodes[j], key@),
            decreases self.nodes.len() - i,
        {
            if key_matches(&self.nodes[i], key) {
                proof {
                    lemma_lookup_first(self@.nodes, key@, i as int);
                }
                return Some(self.nodes[i].id);
            }
            i += 1;
        }
        proof {
            lemma_lookup_none(self@.nodes, key@);
        }
        None
    }

    /// Whether a node with this identity exists.
    pub fn has_node(&self, id: i64) -> (r: bool)
        ensures
            r == self@.has_node(id),
    {
        let mut i: usize = 0;
        while i < self.nodes.len()
            invariant
                i <= self.nodes.len(),
                forall|j: int| 0 <= j < i ==> (#[trigger] self@.nodes[j]).id != id,
            decreases self.nodes.len() - i,
        {
            if self.nodes[i].id == id {
                assert(self@.nodes[i as int].id == id);
                return true;
            }
            i += 1;
        }
        false
    }

    /// Answers one request as [`answer`] says, changing the graph where the
    /// request is a creation.
    pub fn execute(&mut self, request: &Request) -> (reply: Reply)
        ensures
            final(self)@ == answer(old(self)@, request@).0,
            reply == answer(old(self)@, request@).1,
            old(self)@.wf() ==> final(self)@.wf(),
    {
        match request {
            Request::Lookup(key) => Reply::Node(self.find(key)),
            Request::Probe(link) => {
                let n = self.edge_count(link.start, link.end, link.rel_type.as_str());
                Reply::Found(n > 0)
            },
            Request::Create(link) => {
                if self.has_node(link.start) && self.has_node(link.end) {
                    let ghost before = self@;
                    self.edges.push(
                        Edge {
                            start: link.start,
                            end: link.end,
                            rel_type: link.rel_type.as_str().to_owned(),
                        },
                    );
                    assert(self@.edges =~= before.edges.push(link@));
                    assert(self@.nodes =~= before.nodes);
                }
                Reply::Done
            },
        }
    }
}

} // verus!
