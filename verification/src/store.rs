//! The conversation with a graph store: what can be asked of it, what it can
//! answer, and the query text that stands for each request.
//!
//! Values that come from outside (external identities, content) are always
//! bound as parameters. The only text spliced into a query is a
//! [`RelType`], which cannot hold anything but letters, digits and
//! underscores. [`Request::query`] builds the `neo4rs::Query` that a caller
//! hands to the driver.

use vstd::prelude::*;
use vstd::string::StringExecFns;
use crate::reltype::RelType;
use crate::reltype::is_type_name;

verus! {

/// How a node is looked for.
#[derive(Debug, PartialEq, Eq)]
pub enum NodeKey {
    /// By the identity the store assigned to it.
    Id(i64),
    /// By the `id` attribute that the application gave it.
    ExternalId(String),
    /// By its `content` attribute, compared exactly.
    Content(String),
}

/// [`NodeKey`] as a mathematical value.
pub enum NodeKeyView {
    Id(i64),
    ExternalId(Seq<char>),
    Content(Seq<char>),
}

impl View for NodeKey {
    type V = NodeKeyView;

    open spec fn view(&self) -> NodeKeyView {
        match self {
            NodeKey::Id(id) => NodeKeyView::Id(*id),
            NodeKey::ExternalId(s) => NodeKeyView::ExternalId(s@),
            NodeKey::Content(s) => NodeKeyView::Content(s@),
        }
    }
}

impl Clone for NodeKey {
    fn clone(&self) -> (r: Self)
        ensures
            r@ == self@,
    {
        match self {
            NodeKey::Id(id) => NodeKey::Id(*id),
            NodeKey::ExternalId(s) => NodeKey::ExternalId(s.clone()),
            NodeKey::Content(s) => NodeKey::Content(s.clone()),
        }
    }
}

/// A directed, typed connection between two nodes, as a mathematical value.
pub struct Triple {
    pub start: i64,
    pub end: i64,
    pub rel_type: Seq<char>,
}

/// A directed connection of an admitted type between two node identities.
#[derive(Debug, PartialEq, Eq)]
pub struct Link {
    pub start: i64,
    pub end: i64,
    pub rel_type: RelType,
}

impl View for Link {
    type V = Triple;

    open spec fn view(&self) -> Triple {
        Triple { start: self.start, end: self.end, rel_type: self.rel_type@ }
    }
}

impl Clone for Link {
    fn clone(&self) -> (r: Self)
        ensures
            r@ == self@,
    {
        Link { start: self.start, end: self.end, rel_type: self.rel_type.clone() }
    }
}

/// One thing asked of the store.
#[derive(Debug, PartialEq, Eq)]
pub enum Request {
    /// Which node, if any, has this key? The store answers with the identity
    /// of the first node it yields.
    Lookup(NodeKey),
    /// Is there an edge like this one?
    Probe(Link),
    /// Create this edge between the two nodes, where both exist.
    Create(Link),
}

/// [`Request`] as a mathematical value.
pub enum RequestView {
    Lookup(NodeKeyView),
    Probe(Triple),
    Create(Triple),
}

impl View for Request {
    type V = RequestView;

    open spec fn view(&self) -> RequestView {
        match self {
            Request::Lookup(key) => RequestView::Lookup(key@),
            Request::Probe(link) => RequestView::Probe(link@),
            Request::Create(link) => RequestView::Create(link@),
        }
    }
}

/// Why the store gave no answer.
#[derive(Clone, Copy, Debug, PartialEq, Eq, Structural)]
pub enum Failure {
    /// The store could not be reached.
    Unreachable,
    /// The store was reached and refused the statement.
    Rejected,
}

/// What the store answered.
#[derive(Clone, Copy, Debug, PartialEq, Eq)]
pub enum Reply {
    /// To a lookup: the identity in the first row, or `None` without rows.
    Node(Option<i64>),
    /// To a probe: whether any row came back.
    Found(bool),
    /// To a creation: the statement ran.
    Done,
    /// To anything: no answer.
    Failed(Failure),
}

/// A value bound to a query parameter.
#[derive(Debug, PartialEq, Eq)]
pub enum Bound {
    Int(i64),
    Text(String),
}

impl Clone for Bound {
    fn clone(&self) -> (r: Self)
        ensures
            r@ == self@,
    {
        match self {
            Bound::Int(number) => Bound::Int(*number),
            Bound::Text(text) => Bound::Text(text.clone()),
        }
    }
}

/// [`Bound`] as a mathematical value.
pub enum BoundView {
    Int(i64),
    Text(Seq<char>),
}

impl View for Bound {
    type V = BoundView;

    open spec fn view(&self) -> BoundView {
        match self {
            Bound::Int(i) => BoundView::Int(*i),
            Bound::Text(s) => BoundView::Text(s@),
        }
    }
}

/// A named query parameter.
#[derive(Debug, PartialEq, Eq)]
pub struct Param {
    pub name: String,
    pub value: Bound,
}

/// [`Param`] as a mathematical value.
pub struct ParamView {
    pub name: Seq<char>,
    pub value: BoundView,
}

impl View for Param {
    type V = ParamView;

    open spec fn view(&self) -> ParamView {
        ParamView { name: self.name@, value: self.value@ }
    }
}

/// Query text with the parameters to bind.
#[derive(Debug, PartialEq, Eq)]
pub struct Statement {
    pub text: String,
    pub params: Vec<Param>,
    /// Whether rows are read back (a query) or the statement is run for its
    /// effect only.
    pub reads: bool,
}

/// [`Statement`] as a mathematical value.
pub struct StatementView {
    pub text: Seq<char>,
    pub params: Seq<ParamView>,
    pub reads: bool,
}

impl View for Statement {
    type V = StatementView;

    open spec fn view(&self) -> StatementView {
        StatementView {
            text: self.text@,
            params: Seq::new(self.params@.len(), |i: int| self.params@[i]@),
            reads: self.reads,
        }
    }
}

/// The two parameters that name the ends of an edge.
pub open spec fn end_params(t: Triple) -> Seq<ParamView> {
    seq![
        ParamView { name: "start"@, value: BoundView::Int(t.start) },
        ParamView { name: "end"@, value: BoundView::Int(t.end) },
    ]
}

/// The statement that stands for a request.
pub open spec fn statement_of(request: RequestView) -> StatementView {
    match request {
        RequestView::Lookup(NodeKeyView::Id(id)) => StatementView {
            text: "MATCH (n) WHERE id(n) = $id RETURN id(n) AS id"@,
            params: seq![ParamView { name: "id"@, value: BoundView::Int(id) }],
            reads: true,
        },
        RequestView::Lookup(NodeKeyView::ExternalId(s)) => StatementView {
            text: "MATCH (n {id: $id}) RETURN id(n) AS id"@,
            params: seq![ParamView { name: "id"@, value: BoundView::Text(s) }],
            reads: true,
        },
        RequestView::Lookup(NodeKeyView::Content(s)) => StatementView {
            text: "MATCH (n {content: $content}) RETURN id(n) AS id"@,
            params: seq![ParamView { name: "content"@, value: BoundView::Text(s) }],
            reads: true,
        },
        RequestView::Probe(t) => StatementView {
            text: "MATCH (a)-[r:"@ + t.rel_type
                + "]->(b) WHERE id(a) = $start AND id(b) = $end RETURN id(r) AS id"@,
            params: end_params(t),
            reads: true,
        },
        RequestView::Create(t) => StatementView {
            text: "MATCH (a), (b) WHERE id(a) = $start AND id(b) = $end CREATE (a)-[:"@
                + t.rel_type + "]->(b)"@,
            params: end_params(t),
            reads: false,
        },
    }
}

/// The type name that a request splices into its query text, if it splices
/// any.
pub open spec fn spliced(request: RequestView) -> Option<Seq<char>> {
    match request {
        RequestView::Lookup(_) => None,
        RequestView::Probe(t) => Some(t.rel_type),
        RequestView::Create(t) => Some(t.rel_type),
    }
}

fn one_param(name: &str, value: Bound) -> (params: Vec<Param>)
    ensures
        params@.len() == 1,
        params@[0]@ == (ParamView { name: name@, value: value@ }),
{
    let mut params: Vec<Param> = Vec::new();
    params.push(Param { name: String::from_str(name), value });
    params
}

fn link_params(link: &Link) -> (params: Vec<Param>)
    ensures
        Seq::new(params@.len(), |i: int| params@[i]@) == end_params(link@),
{
    let mut params: Vec<Param> = Vec::new();
    params.push(Param { name: String::from_str("start"), value: Bound::Int(link.start) });
    params.push(Param { name: String::from_str("end"), value: Bound::Int(link.end) });
    assert(Seq::new(params@.len(), |i: int| params@[i]@) =~= end_params(link@));
    params
}

impl Request {
    /// The query text and parameters to send for this request.
    ///
    /// Only a relationship type is ever spliced into the text, and it is a
    /// usable type name.
    pub fn statement(&self) -> (st: Statement)
        ensures
            st@ == statement_of(self@),
            spliced(self@) matches Some(name) ==> is_type_name(name),
    {
        match self {
            Request::Lookup(NodeKey::Id(id)) => {
                let params = one_param("id", Bound::Int(*id));
                let st = Statement {
                    text: String::from_str("MATCH (n) WHERE id(n) = $id RETURN id(n) AS id"),
                    params,
                    reads: true,
                };
                assert(st@.params =~= statement_of(self@).params);
                st
            },
            Request::Lookup(NodeKey::ExternalId(s)) => {
                let params = one_param("id", Bound::Text(s.clone()));
                let st = Statement {
                    text: String::from_str("MATCH (n {id: $id}) RETURN id(n) AS id"),
                    params,
                    reads: true,
                };
                assert(st@.params =~= statement_of(self@).params);
                st
            },
            Request::Lookup(NodeKey::Content(s)) => {
                let params = one_param("content", Bound::Text(s.clone()));
                let st = Statement {
                    text: String::from_str("MATCH (n {content: $content}) RETURN id(n) AS id"),
                    params,
                    reads: true,
                };
                assert(st@.params =~= statement_of(self@).params);
                st
            },
            Request::Probe(link) => {
                let mut text = String::from_str("MATCH (a)-[r:");
                text.append(link.rel_type.as_str());
                text.append("]->(b) WHERE id(a) = $start AND id(b) = $end RETURN id(r) AS id");
                Statement { text, params: link_params(link), reads: true }
            },
            Request::Create(link) => {
                let mut text = String::from_str(
                    "MATCH (a), (b) WHERE id(a) = $start AND id(b) = $end CREATE (a)-[:",
                );
                text.append(link.rel_type.as_str());
                text.append("]->(b)");
                Statement { text, params: link_params(link), reads: false }
            },
        }
    }
}

/// `neo4rs::Query`: a query text together with the parameters bound to
/// it.
#[verifier::external_type_specification]
#[verifier::external_body]
pub struct ExQuery(neo4rs::Query);

/// The text that a `neo4rs::Query` was made with.
pub uninterp spec fn query_text(q: neo4rs::Query) -> Seq<char>;

/// The parameters that a `neo4rs::Query` holds, by name.
pub uninterp spec fn query_params(q: neo4rs::Query) -> Map<Seq<char>, BoundView>;

/// No parameters at all.
pub open spec fn no_params() -> Map<Seq<char>, BoundView> {
    Map::empty()
}

/// `neo4rs::Query::new`: a query with the given text and no parameters.
#[verifier::external_body]
fn new_query(text: String) -> (q: neo4rs::Query)
    ensures
        query_text(q) == text@,
        query_params(q) == no_params(),
{
    neo4rs::Query::new(text)
}

/// `neo4rs::Query::param`, with an integer or with a string: the value is
/// put under the name, in place of what stood there, and nothing else
/// changes.
#[verifier::external_body]
fn bind(q: neo4rs::Query, name: &str, value: Bound) -> (r: neo4rs::Query)
    ensures
        query_text(r) == query_text(q),
        query_params(r) == query_params(q).insert(name@, value@),
{
    match value {
        Bound::Int(number) => q.param(name, number),
        Bound::Text(text) => q.param(name, text),
    }
}

/// The parameters of a statement by name. Where a name occurs twice, the
/// later value stands.
pub open spec fn bound(params: Seq<ParamView>) -> Map<Seq<char>, BoundView>
    decreases params.len(),
{
    if params.len() == 0 {
        Map::empty()
    } else {
        bound(params.drop_last()).insert(params.last().name, params.last().value)
    }
}

impl Statement {
    /// The query to hand to the driver: the statement's text, with every
    /// parameter bound.
    pub fn query(&self) -> (q: neo4rs::Query)
        ensures
            query_text(q) == self@.text,
            query_params(q) == bound(self@.params),
    {
        let mut q = new_query(self.text.clone());
        let ghost all = self@.params;
        assert(all.take(0) =~= Seq::<ParamView>::empty());
        for i in 0..self.params.len()
            invariant
                all == self@.params,
                query_text(q) == self@.text,
                query_params(q) == bound(all.take(i as int)),
        {
            assert(all.take(i + 1).drop_last() =~= all.take(i as int));
            assert(all.take(i + 1).last() == self.params@[i as int]@);
            let param = &self.params[i];
            q = bind(q, param.name.as_str(), param.value.clone());
        }
        assert(all.take(self.params@.len() as int) =~= all);
        q
    }
}

impl Request {
    /// Whether the answer to this request is read from rows.
    pub fn reads(&self) -> (r: bool)
        ensures
            r == statement_of(self@).reads,
    {
        match self {
            Request::Lookup(_) => true,
            Request::Probe(_) => true,
            Request::Create(_) => false,
        }
    }

    /// The query to hand to the driver for this request.
    pub fn query(&self) -> (q: neo4rs::Query)
        ensures
            query_text(q) == statement_of(self@).text,
            query_params(q) == bound(statement_of(self@).params),
    {
        self.statement().query()
    }
}

} // verus!
