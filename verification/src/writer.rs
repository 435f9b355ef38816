//! The relationship writer: makes sure that an edge exists, without ever
//! creating it a second time.
//!
//! The writer checks, then acts, then checks again. It is a small state
//! machine: [`Writer::request`] says what to ask the store next, and
//! [`Writer::receive`] takes the answer. [`ensure_relationship`] runs the
//! machine against a graph in memory and is proved to do what [`write_edge`]
//! says.

use vstd::prelude::*;
use crate::graph::{GraphView, MemoryGraph, answer, count, lemma_count_push};
use crate::store::{Failure, Link, Reply, Request, RequestView, Triple};

verus! {

/// What to make of an edge that cannot be seen after its creation.
#[derive(Clone, Copy, Debug, PartialEq, Eq, Structural)]
pub enum Strictness {
    /// Report it as [`WriteOutcome::Unverified`] and go on.
    Lenient,
    /// Report it as [`WriteError::NotVerified`].
    Strict,
}

/// How a write ended well.
#[derive(Clone, Copy, Debug, PartialEq, Eq, Structural)]
pub enum WriteOutcome {
    /// The edge was there already; nothing was sent to create it.
    AlreadyPresent,
    /// The edge was created and seen afterwards.
    Created,
    /// The creation ran, but the edge was not seen afterwards.
    Unverified,
}

/// How a write failed.
#[derive(Clone, Copy, Debug, PartialEq, Eq, Structural)]
pub enum WriteError {
    /// The store could not be reached.
    Unreachable,
    /// The store refused a probe.
    QueryRejected,
    /// The store answered something that was not asked.
    UnexpectedReply,
    /// The store refused to create the edge.
    CreateRejected,
    /// The creation ran, but the edge was not seen afterwards.
    NotVerified,
}

impl WriteError {
    /// Whether the failure concerns the store as a whole rather than this
    /// one edge.
    pub open spec fn fatal(self) -> bool {
        self == WriteError::Unreachable || self == WriteError::QueryRejected || self
            == WriteError::UnexpectedReply
    }

    /// Decides [`WriteError::fatal`].
    pub fn is_fatal(self) -> (r: bool)
        ensures
            r == self.fatal(),
    {
        match self {
            WriteError::Unreachable => true,
            WriteError::QueryRejected => true,
            WriteError::UnexpectedReply => true,
            WriteError::CreateRejected => false,
            WriteError::NotVerified => false,
        }
    }
}

/// Where a writer stands.
#[derive(Clone, Copy, Debug, PartialEq, Eq, Structural)]
pub enum Phase {
    /// Asking whether the edge is there already.
    Checking,
    /// Asking the store to create the edge.
    Creating,
    /// Asking whether the edge is there now.
    Verifying,
}

/// A writer as a mathematical value.
pub struct WriterView {
    pub link: Triple,
    pub strictness: Strictness,
    pub phase: Phase,
}

/// What a writer does after an answer.
pub enum WriterStep {
    /// It has another request.
    Continue(WriterView),
    /// It is done.
    Finished(Result<WriteOutcome, WriteError>),
}

/// The failure of a probe, as the writer reports it.
pub open spec fn probe_failure(f: Failure) -> WriteError {
    match f {
        Failure::Unreachable => WriteError::Unreachable,
        Failure::Rejected => WriteError::QueryRejected,
    }
}

/// The failure of a creation, as the writer reports it.
pub open spec fn create_failure(f: Failure) -> WriteError {
    match f {
        Failure::Unreachable => WriteError::Unreachable,
        Failure::Rejected => WriteError::CreateRejected,
    }
}

impl WriterView {
    /// The request that the writer has for the store.
    pub open spec fn request(self) -> RequestView {
        match self.phase {
            Phase::Checking => RequestView::Probe(self.link),
            Phase::Creating => RequestView::Create(self.link),
            Phase::Verifying => RequestView::Probe(self.link),
        }
    }

    /// The writer in another phase.
    pub open spec fn at(self, phase: Phase) -> WriterView {
        WriterView { link: self.link, strictness: self.strictness, phase }
    }

    /// What the writer does with an answer.
    pub open spec fn receive(self, reply: Reply) -> WriterStep {
        match self.phase {
            Phase::Checking => match reply {
                Reply::Found(true) => WriterStep::Finished(Ok(WriteOutcome::AlreadyPresent)),
                Reply::Found(false) => WriterStep::Continue(self.at(Phase::Creating)),
                Reply::Failed(f) => WriterStep::Finished(Err(probe_failure(f))),
                _ => WriterStep::Finished(Err(WriteError::UnexpectedReply)),
            },
            Phase::Creating => match reply {
                Reply::Done => WriterStep::Continue(self.at(Phase::Verifying)),
                Reply::Failed(f) => WriterStep::Finished(Err(create_failure(f))),
                _ => WriterStep::Finished(Err(WriteError::UnexpectedReply)),
            },
            Phase::Verifying => match reply {
                Reply::Found(true) => WriterStep::Finished(Ok(WriteOutcome::Created)),
                Reply::Found(false) => WriterStep::Finished(
                    match self.strictness {
                        Strictness::Lenient => Ok(WriteOutcome::Unverified),
                        Strictness::Strict => Err(WriteError::NotVerified),
                    },
                ),
                Reply::Failed(f) => WriterStep::Finished(Err(probe_failure(f))),
                _ => WriterStep::Finished(Err(WriteError::UnexpectedReply)),
            },
        }
    }

    /// How many answers the writer may still need.
    pub open spec fn rounds_left(self) -> nat {
        match self.phase {
            Phase::Checking => 3,
            Phase::Creating => 2,
            Phase::Verifying => 1,
        }
    }
}

/// A write in progress.
#[derive(Debug)]
pub struct Writer {
    link: Link,
    strictness: Strictness,
    phase: Phase,
}

impl View for Writer {
    type V = WriterView;

    closed spec fn view(&self) -> WriterView {
        WriterView { link: self.link@, strictness: self.strictness, phase: self.phase }
    }
}

/// What to do after handing an answer to a [`Writer`].
#[derive(Debug)]
pub enum Step {
    /// Perform the writer's next request.
    Continue(Writer),
    /// The write is over.
    Finished(Result<WriteOutcome, WriteError>),
}

impl View for Step {
    type V = WriterStep;

    open spec fn view(&self) -> WriterStep {
        match self {
            Step::Continue(w) => WriterStep::Continue(w@),
            Step::Finished(r) => WriterStep::Finished(*r),
        }
    }
}

impl Writer {
    /// A writer for `link` that has not asked anything yet.
    pub fn new(link: Link, strictness: Strictness) -> (w: Writer)
        ensures
            w@ == (WriterView { link: link@, strictness, phase: Phase::Checking }),
    {
        Writer { link, strictness, phase: Phase::Checking }
    }

    /// Where the writer stands.
    pub fn phase(&self) -> (p: Phase)
        ensures
            p == self@.phase,
    {
        self.phase
    }

    /// The request to perform next.
    pub fn request(&self) -> (r: Request)
        ensures
            r@ == self@.request(),
    {
        match self.phase {
            Phase::Checking => Request::Probe(self.link.clone()),
            Phase::Creating => Request::Create(self.link.clone()),
            Phase::Verifying => Request::Probe(self.link.clone()),
        }
    }

    /// Takes the answer to [`Writer::request`] and says how to go on.
    pub fn receive(self, reply: Reply) -> (step: Step)
        ensures
            step@ == self@.receive(reply),
    {
        let Writer { link, strictness, phase } = self;
        match phase {
            Phase::Checking => match reply {
                Reply::Found(true) => Step::Finished(Ok(WriteOutcome::AlreadyPresent)),
                Reply::Found(false) => Step::Continue(
                    Writer { link, strictness, phase: Phase::Creating },
                ),
                Reply::Failed(Failure::Unreachable) => Step::Finished(Err(WriteError::Unreachable)),
                Reply::Failed(Failure::Rejected) => Step::Finished(Err(WriteError::QueryRejected)),
                _ => Step::Finished(Err(WriteError::UnexpectedReply)),
            },
            Phase::Creating => match reply {
                Reply::Done => Step::Continue(Writer { link, strictness, phase: Phase::Verifying }),
                Reply::Failed(Failure::Unreachable) => Step::Finished(Err(WriteError::Unreachable)),
                Reply::Failed(Failure::Rejected) => Step::Finished(Err(WriteError::CreateRejected)),
                _ => Step::Finished(Err(WriteError::UnexpectedReply)),
            },
            Phase::Verifying => match reply {
                Reply::Found(true) => Step::Finished(Ok(WriteOutcome::Created)),
                Reply::Found(false) => match strictness {
                    Strictness::Lenient => Step::Finished(Ok(WriteOutcome::Unverified)),
                    Strictness::Strict => Step::Finished(Err(WriteError::NotVerified)),
                },
                Reply::Failed(Failure::Unreachable) => Step::Finished(Err(WriteError::Unreachable)),
                Reply::Failed(Failure::Rejected) => Step::Finished(Err(WriteError::QueryRejected)),
                _ => Step::Finished(Err(WriteError::UnexpectedReply)),
            },
        }
    }
}

/// What a write does to a graph, and how it ends: nothing where the edge is
/// there already; otherwise one creation, and a look whether the edge is
/// there now.
pub open spec fn write_edge(g: GraphView, t: Triple, strictness: Strictness) -> (
    GraphView,
    Result<WriteOutcome, WriteError>,
) {
    if g.has_edge(t) {
        (g, Ok(WriteOutcome::AlreadyPresent))
    } else if g.create(t).has_edge(t) {
        (g.create(t), Ok(WriteOutcome::Created))
    } else {
        (
            g.create(t),
            match strictness {
                Strictness::Lenient => Ok(WriteOutcome::Unverified),
                Strictness::Strict => Err(WriteError::NotVerified),
            },
        )
    }
}

/// A writer that is answered by a graph, from its current phase to its end.
pub open spec fn run_writer(w: WriterView, g: GraphView) -> (GraphView, Result<WriteOutcome, WriteError>)
    decreases w.rounds_left(),
{
    let (after, reply) = answer(g, w.request());
    match w.receive(reply) {
        WriterStep::Continue(next) => run_writer(next, after),
        WriterStep::Finished(r) => (after, r),
    }
}

/// A writer that starts afresh and is answered by a graph does exactly what
/// [`write_edge`] says.
pub proof fn lemma_run_is_write(g: GraphView, t: Triple, strictness: Strictness)
    ensures
        run_writer(WriterView { link: t, strictness, phase: Phase::Checking }, g) == write_edge(
            g,
            t,
            strictness,
        ),
{
    reveal_with_fuel(run_writer, 4);
}

/// Makes sure that the graph holds the edge `link`, creating it only where
/// it is missing.
pub fn ensure_relationship(graph: &mut MemoryGraph, link: &Link, strictness: Strictness) -> (r:
    Result<WriteOutcome, WriteError>)
    ensures
        final(graph)@ == write_edge(old(graph)@, link@, strictness).0,
        r == write_edge(old(graph)@, link@, strictness).1,
        old(graph)@.wf() ==> final(graph)@.wf(),
{
    let mut w = Writer::new(link.clone(), strictness);
    proof {
        lemma_run_is_write(graph@, link@, strictness);
    }
    loop
        invariant
            run_writer(w@, graph@) == write_edge(old(graph)@, link@, strictness),
            old(graph)@.wf() ==> graph@.wf(),
        decreases w@.rounds_left(),
    {
        let request = w.request();
        let reply = graph.execute(&request);
        match w.receive(reply) {
            Step::Continue(next) => {
                w = next;
            },
            Step::Finished(r) => {
                return r;
            },
        }
    }
}

/// Writing the same edge again changes nothing, and says so.
pub proof fn lemma_write_again(g: GraphView, t: Triple, first: Strictness, second: Strictness)
    ensures
        write_edge(write_edge(g, t, first).0, t, second).0 == write_edge(g, t, first).0,
        write_edge(g, t, first).0.has_edge(t) ==> write_edge(write_edge(g, t, first).0, t, second).1 == Ok::<
            WriteOutcome,
            WriteError,
        >(WriteOutcome::AlreadyPresent),
{
    let g1 = write_edge(g, t, first).0;
    if !g.has_edge(t) {
        lemma_count_push(g.edges, t, t);
        if !(g.has_node(t.start) && g.has_node(t.end)) {
            assert(g.create(t) == g);
        }
    }
}

/// Two writes of the same edge into a graph that holds both ends and at most
/// one such edge leave exactly one.
pub proof fn lemma_write_twice_leaves_one(
    g: GraphView,
    t: Triple,
    first: Strictness,
    second: Strictness,
)
    requires
        g.has_node(t.start),
        g.has_node(t.end),
        count(g.edges, t) <= 1,
    ensures
        count(write_edge(write_edge(g, t, first).0, t, second).0.edges, t) == 1,
{
    lemma_write_again(g, t, first, second);
    lemma_count_push(g.edges, t, t);
}

/// A write never touches another edge, and never adds to one that is there.
pub proof fn lemma_write_adds_at_most_one(g: GraphView, t: Triple, strictness: Strictness, other: Triple)
    ensures
        write_edge(g, t, strictness).0.nodes == g.nodes,
        other != t ==> count(write_edge(g, t, strictness).0.edges, other) == count(g.edges, other),
        count(g.edges, t) > 0 ==> count(write_edge(g, t, strictness).0.edges, t) == count(g.edges, t),
        count(g.edges, t) == 0 ==> count(write_edge(g, t, strictness).0.edges, t) <= 1,
{
    lemma_count_push(g.edges, t, other);
    lemma_count_push(g.edges, t, t);
}

/// A write keeps a graph free of double edges.
pub proof fn lemma_write_keeps_single_edged(g: GraphView, t: Triple, strictness: Strictness)
    requires
        g.single_edged(),
    ensures
        write_edge(g, t, strictness).0.single_edged(),
{
    let after = write_edge(g, t, strictness).0;
    assert forall|other: Triple| #[trigger] count(after.edges, other) <= 1 by {
        lemma_write_adds_at_most_one(g, t, strictness, other);
        assert(count(g.edges, other) <= 1);
        assert(count(g.edges, t) <= 1);
    }
}

} // verus!
