//! Ingestion of a batch of link tasks: for each task, resolve both ends, and
//! where both resolve, write the edge.
//!
//! A task that cannot be carried out is passed over and the batch goes on.
//! Only a failure of the store itself ends a run early.
//!
//! [`Ingestion`] is the state machine that a caller drives against a real
//! store. [`ingest`] drives it against a graph in memory and is proved to do
//! what [`ingest_all`] says.

use vstd::prelude::*;
use crate::graph::{GraphView, MemoryGraph, NodeView, answer, lookup};
use crate::reltype::RelType;
use crate::resolver::{ResolveError, content_key, key_of, reference_key};
use crate::store::{Failure, Link, NodeKey, NodeKeyView, Reply, Request, RequestView, Triple};
use crate::writer::{
    Phase, Step, Strictness, WriteError, WriteOutcome, Writer, WriterStep, WriterView, write_edge,
};

verus! {

/// How a task names one end of its edge.
#[derive(Debug, PartialEq, Eq)]
pub enum Endpoint {
    /// By a reference: the store's identity in digits, or an external
    /// identity.
    Reference(String),
    /// By the exact content of the node.
    Content(String),
}

/// [`Endpoint`] as a mathematical value.
pub enum EndpointView {
    Reference(Seq<char>),
    Content(Seq<char>),
}

impl View for Endpoint {
    type V = EndpointView;

    open spec fn view(&self) -> EndpointView {
        match self {
            Endpoint::Reference(s) => EndpointView::Reference(s@),
            Endpoint::Content(s) => EndpointView::Content(s@),
        }
    }
}

impl Clone for Endpoint {
    fn clone(&self) -> (r: Self)
        ensures
            r@ == self@,
    {
        match self {
            Endpoint::Reference(s) => Endpoint::Reference(s.clone()),
            Endpoint::Content(s) => Endpoint::Content(s.clone()),
        }
    }
}

/// One edge to make sure of: from `source` to `target`, of type `rel_type`.
/// A task whose type name was not admitted carries `None`.
#[derive(Debug, PartialEq, Eq)]
pub struct Task {
    pub source: Endpoint,
    pub target: Endpoint,
    pub rel_type: Option<RelType>,
}

/// [`Task`] as a mathematical value.
pub struct TaskView {
    pub source: EndpointView,
    pub target: EndpointView,
    pub rel_type: Option<Seq<char>>,
}

impl View for Task {
    type V = TaskView;

    open spec fn view(&self) -> TaskView {
        TaskView {
            source: self.source@,
            target: self.target@,
            rel_type: match self.rel_type {
                Some(t) => Some(t@),
                None => None,
            },
        }
    }
}

/// The tasks of a vector as mathematical values.
pub open spec fn task_views(tasks: Seq<Task>) -> Seq<TaskView> {
    Seq::new(tasks.len(), |i: int| tasks[i]@)
}

/// How one task ended.
#[derive(Clone, Copy, Debug, PartialEq, Eq, Structural)]
pub enum Outcome {
    /// Both ends resolved and the writer ended well.
    Linked(WriteOutcome),
    /// No node matches the source; nothing was written.
    SourceMissing,
    /// No node matches the target; nothing was written.
    TargetMissing,
    /// An end is a reference that can name no node; nothing was written.
    InvalidReference,
    /// Both ends resolved, but the task has no admitted type name; nothing
    /// was written.
    TypeRejected,
    /// Both ends resolved and the writer failed on this edge alone.
    WriteFailed(WriteError),
}

/// Why a run ended before its last task.
#[derive(Clone, Copy, Debug, PartialEq, Eq, Structural)]
pub enum RunError {
    /// The store could not be reached.
    Unreachable,
    /// The store refused a query.
    QueryRejected,
    /// The store answered something that was not asked.
    UnexpectedReply,
}

/// What a run did: the outcome of every task that was completed, in order,
/// and the error that ended it early, if one did.
#[derive(Clone, Debug, PartialEq, Eq)]
pub struct Report {
    pub outcomes: Vec<Outcome>,
    pub error: Option<RunError>,
}

/// [`Report`] as a mathematical value.
pub struct ReportView {
    pub outcomes: Seq<Outcome>,
    pub error: Option<RunError>,
}

impl View for Report {
    type V = ReportView;

    open spec fn view(&self) -> ReportView {
        ReportView { outcomes: self.outcomes@, error: self.error }
    }
}

/// The key under which an end is looked for.
pub open spec fn endpoint_key(e: EndpointView) -> Result<NodeKeyView, ResolveError> {
    match e {
        EndpointView::Reference(s) => key_of(s),
        EndpointView::Content(s) => Ok(NodeKeyView::Content(s)),
    }
}

/// A failed lookup, as a run reports it.
pub open spec fn lookup_failure(f: Failure) -> RunError {
    match f {
        Failure::Unreachable => RunError::Unreachable,
        Failure::Rejected => RunError::QueryRejected,
    }
}

/// What the answer to a lookup says: the node, no node, or why the run
/// cannot go on.
pub open spec fn lookup_reply(reply: Reply) -> Result<Option<i64>, RunError> {
    match reply {
        Reply::Node(found) => Ok(found),
        Reply::Failed(f) => Err(lookup_failure(f)),
        _ => Err(RunError::UnexpectedReply),
    }
}

/// How a task ends when its writer ends with `r`: a failure of the store
/// ends the run, anything else is the task's outcome.
pub open spec fn written(r: Result<WriteOutcome, WriteError>) -> Result<Outcome, RunError> {
    match r {
        Ok(o) => Ok(Outcome::Linked(o)),
        Err(WriteError::Unreachable) => Err(RunError::Unreachable),
        Err(WriteError::QueryRejected) => Err(RunError::QueryRejected),
        Err(WriteError::UnexpectedReply) => Err(RunError::UnexpectedReply),
        Err(e) => Ok(Outcome::WriteFailed(e)),
    }
}

/// What the two ends of a task come to in a store with these nodes.
pub enum Ends {
    /// The source is node `0`, the target node `1`.
    Both(i64, i64),
    /// No node matches the source.
    SourceMissing,
    /// The source is found and no node matches the target.
    TargetMissing,
    /// An end that had to be looked for is a reference that can name no
    /// node.
    Invalid,
}

/// Resolves the source, and where it is found, the target.
pub open spec fn ends(nodes: Seq<NodeView>, task: TaskView) -> Ends {
    match endpoint_key(task.source) {
        Err(_) => Ends::Invalid,
        Ok(source_key) => match lookup(nodes, source_key) {
            None => Ends::SourceMissing,
            Some(start) => match endpoint_key(task.target) {
                Err(_) => Ends::Invalid,
                Ok(target_key) => match lookup(nodes, target_key) {
                    None => Ends::TargetMissing,
                    Some(end) => Ends::Both(start, end),
                },
            },
        },
    }
}

/// The edge that a task asks for in a store with these nodes: both ends
/// resolve and the type name was admitted.
pub open spec fn planned(nodes: Seq<NodeView>, task: TaskView) -> Option<Triple> {
    match (ends(nodes, task), task.rel_type) {
        (Ends::Both(start, end), Some(rel_type)) => Some(Triple { start, end, rel_type }),
        _ => None,
    }
}

/// What one task does to a graph, and how it ends.
pub open spec fn link(g: GraphView, task: TaskView, strictness: Strictness) -> (GraphView, Outcome) {
    match ends(g.nodes, task) {
        Ends::Invalid => (g, Outcome::InvalidReference),
        Ends::SourceMissing => (g, Outcome::SourceMissing),
        Ends::TargetMissing => (g, Outcome::TargetMissing),
        Ends::Both(start, end) => match task.rel_type {
            None => (g, Outcome::TypeRejected),
            Some(rel_type) => {
                let w = write_edge(g, Triple { start, end, rel_type }, strictness);
                (
                    w.0,
                    match w.1 {
                        Ok(o) => Outcome::Linked(o),
                        Err(e) => Outcome::WriteFailed(e),
                    },
                )
            },
        },
    }
}

/// What a batch does to a graph, task after task, and the outcomes of its
/// tasks after the outcomes `done` of the tasks before it.
pub open spec fn ingest_from(
    g: GraphView,
    tasks: Seq<TaskView>,
    done: Seq<Outcome>,
    strictness: Strictness,
) -> (GraphView, Seq<Outcome>)
    decreases tasks.len(),
{
    if tasks.len() == 0 {
        (g, done)
    } else {
        let (after, outcome) = link(g, tasks[0], strictness);
        ingest_from(after, tasks.drop_first(), done.push(outcome), strictness)
    }
}

/// What a whole batch does to a graph, and the outcome of each of its
/// tasks.
pub open spec fn ingest_all(g: GraphView, tasks: Seq<TaskView>, strictness: Strictness) -> (
    GraphView,
    Seq<Outcome>,
) {
    ingest_from(g, tasks, Seq::empty(), strictness)
}

/// Where an ingestion stands within its current task.
pub enum StageView {
    /// Looking for the source under this key.
    Source(NodeKeyView),
    /// The source is the node `0`; looking for the target under this key.
    Target(i64, NodeKeyView),
    /// Both ends are known; the writer is at work.
    Write(WriterView),
}

/// An ingestion as a mathematical value.
pub struct IngestionView {
    /// The task at hand.
    pub current: TaskView,
    /// The tasks after it.
    pub upcoming: Seq<TaskView>,
    /// The outcomes of the tasks before it.
    pub done: Seq<Outcome>,
    pub stage: StageView,
    pub strictness: Strictness,
}

/// What an ingestion does next.
pub enum ProgressView {
    /// It has a request for the store.
    Ask(IngestionView),
    /// It is over.
    Finished(ReportView),
}

/// Takes up the first of `tasks` whose source can name a node, passing over
/// those before it, or ends the run where none is left.
pub open spec fn begin(tasks: Seq<TaskView>, done: Seq<Outcome>, strictness: Strictness) -> ProgressView
    decreases tasks.len(),
{
    if tasks.len() == 0 {
        ProgressView::Finished(ReportView { outcomes: done, error: None })
    } else {
        match endpoint_key(tasks[0].source) {
            Err(_) => begin(tasks.drop_first(), done.push(Outcome::InvalidReference), strictness),
            Ok(key) => ProgressView::Ask(
                IngestionView {
                    current: tasks[0],
                    upcoming: tasks.drop_first(),
                    done,
                    stage: StageView::Source(key),
                    strictness,
                },
            ),
        }
    }
}

/// An ingestion that takes up one of `tasks` has fewer of them ahead.
pub proof fn lemma_begin_shrinks(tasks: Seq<TaskView>, done: Seq<Outcome>, strictness: Strictness)
    ensures
        begin(tasks, done, strictness) matches ProgressView::Ask(m) ==> m.upcoming.len()
            < tasks.len(),
    decreases tasks.len(),
{
    if tasks.len() > 0 && endpoint_key(tasks[0].source) is Err {
        lemma_begin_shrinks(tasks.drop_first(), done.push(Outcome::InvalidReference), strictness);
    }
}

impl IngestionView {
    /// The request that the ingestion has for the store.
    pub open spec fn request(self) -> RequestView {
        match self.stage {
            StageView::Source(key) => RequestView::Lookup(key),
            StageView::Target(_, key) => RequestView::Lookup(key),
            StageView::Write(w) => w.request(),
        }
    }

    /// The same ingestion at another stage of its current task.
    pub open spec fn at(self, stage: StageView) -> IngestionView {
        IngestionView {
            current: self.current,
            upcoming: self.upcoming,
            done: self.done,
            stage,
            strictness: self.strictness,
        }
    }

    /// The current task ends with `outcome`; on to the next.
    pub open spec fn settle(self, outcome: Outcome) -> ProgressView {
        begin(self.upcoming, self.done.push(outcome), self.strictness)
    }

    /// The run ends here.
    pub open spec fn abort(self, error: RunError) -> ProgressView {
        ProgressView::Finished(ReportView { outcomes: self.done, error: Some(error) })
    }

    /// What the ingestion does with an answer.
    pub open spec fn receive(self, reply: Reply) -> ProgressView {
        match self.stage {
            StageView::Source(_) => match lookup_reply(reply) {
                Err(e) => self.abort(e),
                Ok(None) => self.settle(Outcome::SourceMissing),
                Ok(Some(start)) => match endpoint_key(self.current.target) {
                    Err(_) => self.settle(Outcome::InvalidReference),
                    Ok(key) => ProgressView::Ask(self.at(StageView::Target(start, key))),
                },
            },
            StageView::Target(start, _) => match lookup_reply(reply) {
                Err(e) => self.abort(e),
                Ok(None) => self.settle(Outcome::TargetMissing),
                Ok(Some(end)) => match self.current.rel_type {
                    None => self.settle(Outcome::TypeRejected),
                    Some(rel_type) => ProgressView::Ask(
                        self.at(
                            StageView::Write(
                                WriterView {
                                    link: Triple { start, end, rel_type },
                                    strictness: self.strictness,
                                    phase: Phase::Checking,
                                },
                            ),
                        ),
                    ),
                },
            },
            StageView::Write(w) => match w.receive(reply) {
                WriterStep::Continue(next) => ProgressView::Ask(self.at(StageView::Write(next))),
                WriterStep::Finished(r) => match written(r) {
                    Ok(outcome) => self.settle(outcome),
                    Err(e) => self.abort(e),
                },
            },
        }
    }

    /// How many answers the current task may still need.
    pub open spec fn rounds_left(self) -> nat {
        match self.stage {
            StageView::Source(_) => 5,
            StageView::Target(_, _) => 4,
            StageView::Write(w) => w.rounds_left(),
        }
    }
}

/// An ingestion that is answered by a graph, from where it stands to its
/// end.
pub open spec fn run_ingestion(m: IngestionView, g: GraphView) -> (GraphView, ReportView)
    decreases m.upcoming.len(), m.rounds_left(),
{
    let (after, reply) = answer(g, m.request());
    match m.receive(reply) {
        ProgressView::Ask(next) => {
            proof {
                lemma_receive_shrinks(m, reply);
            }
            run_ingestion(next, after)
        },
        ProgressView::Finished(report) => (after, report),
    }
}

/// The rest of a run that is answered by a graph.
pub open spec fn run_progress(p: ProgressView, g: GraphView) -> (GraphView, ReportView) {
    match p {
        ProgressView::Ask(m) => run_ingestion(m, g),
        ProgressView::Finished(report) => (g, report),
    }
}

/// An ingestion that is answered by a graph completes every task, and does
/// exactly what [`ingest_from`] says.
pub proof fn lemma_run_is_ingest(
    g: GraphView,
    tasks: Seq<TaskView>,
    done: Seq<Outcome>,
    strictness: Strictness,
)
    ensures
        run_progress(begin(tasks, done, strictness), g).0 == ingest_from(
            g,
            tasks,
            done,
            strictness,
        ).0,
        run_progress(begin(tasks, done, strictness), g).1 == (ReportView {
            outcomes: ingest_from(g, tasks, done, strictness).1,
            error: None,
        }),
    decreases tasks.len(),
{
    if tasks.len() > 0 {
        let (after, outcome) = link(g, tasks[0], strictness);
        lemma_run_is_ingest(after, tasks.drop_first(), done.push(outcome), strictness);
        reveal_with_fuel(run_ingestion, 6);
    }
}

/// Where an [`Ingestion`] stands within its current task.
#[derive(Debug)]
pub enum Stage {
    /// Looking for the source under this key.
    Source(NodeKey),
    /// The source is known; looking for the target under this key.
    Target(i64, NodeKey),
    /// Both ends are known; the writer is at work.
    Write(Writer),
}

impl View for Stage {
    type V = StageView;

    open spec fn view(&self) -> StageView {
        match self {
            Stage::Source(key) => StageView::Source(key@),
            Stage::Target(start, key) => StageView::Target(*start, key@),
            Stage::Write(w) => StageView::Write(w@),
        }
    }
}

/// A run over a batch of tasks, waiting for the store's answer to
/// [`Ingestion::request`].
#[derive(Debug)]
pub struct Ingestion {
    tasks: Vec<Task>,
    position: usize,
    done: Vec<Outcome>,
    stage: Stage,
    strictness: Strictness,
}

impl View for Ingestion {
    type V = IngestionView;

    closed spec fn view(&self) -> IngestionView {
        IngestionView {
            current: self.tasks@[self.position as int]@,
            upcoming: task_views(self.tasks@).skip(self.position + 1),
            done: self.done@,
            stage: self.stage@,
            strictness: self.strictness,
        }
    }
}

/// What to do next in a run.
#[derive(Debug)]
pub enum Progress {
    /// Perform the ingestion's request and hand it the answer.
    Ask(Ingestion),
    /// The run is over.
    Finished(Report),
}

impl View for Progress {
    type V = ProgressView;

    open spec fn view(&self) -> ProgressView {
        match self {
            Progress::Ask(m) => ProgressView::Ask(m@),
            Progress::Finished(report) => ProgressView::Finished(report@),
        }
    }
}

/// The key under which to look for an end of a task.
pub fn key_for(endpoint: &Endpoint) -> (r: Result<NodeKey, ResolveError>)
    ensures
        match r {
            Ok(key) => endpoint_key(endpoint@) == Ok::<NodeKeyView, ResolveError>(key@),
            Err(e) => endpoint_key(endpoint@) == Err::<NodeKeyView, ResolveError>(e),
        },
{
    match endpoint {
        Endpoint::Reference(s) => reference_key(s.as_str()),
        Endpoint::Content(s) => Ok(content_key(s.as_str())),
    }
}

/// Reads the answer to a lookup: the node that was found, `None` where no
/// node matches, or the error that ends the run.
pub fn found(reply: Reply) -> (r: Result<Option<i64>, RunError>)
    ensures
        r == lookup_reply(reply),
{
    match reply {
        Reply::Node(node) => Ok(node),
        Reply::Failed(Failure::Unreachable) => Err(RunError::Unreachable),
        Reply::Failed(Failure::Rejected) => Err(RunError::QueryRejected),
        _ => Err(RunError::UnexpectedReply),
    }
}

/// How a task ends when its writer ends with `r`.
pub fn task_result(r: Result<WriteOutcome, WriteError>) -> (t: Result<Outcome, RunError>)
    ensures
        t == written(r),
{
    match r {
        Ok(o) => Ok(Outcome::Linked(o)),
        Err(WriteError::Unreachable) => Err(RunError::Unreachable),
        Err(WriteError::QueryRejected) => Err(RunError::QueryRejected),
        Err(WriteError::UnexpectedReply) => Err(RunError::UnexpectedReply),
        Err(WriteError::CreateRejected) => Ok(Outcome::WriteFailed(WriteError::CreateRejected)),
        Err(WriteError::NotVerified) => Ok(Outcome::WriteFailed(WriteError::NotVerified)),
    }
}

#[verifier::loop_isolation(false)]
fn begin_at(tasks: Vec<Task>, position: usize, done: Vec<Outcome>, strictness: Strictness) -> (p:
    Progress)
    requires
        position <= tasks@.len(),
    ensures
        p@ == begin(task_views(tasks@).skip(position as int), done@, strictness),
{
    let ghost all = task_views(tasks@);
    let mut next = position;
    let mut outcomes = done;
    while next < tasks.len()
        invariant
            next <= tasks@.len(),
            begin(all.skip(next as int), outcomes@, strictness) == begin(
                all.skip(position as int),
                done@,
                strictness,
            ),
        decreases tasks@.len() - next,
    {
        let ghost rest = all.skip(next as int);
        assert(rest[0] == tasks@[next as int]@);
        assert(rest.drop_first() =~= all.skip(next + 1));
        match key_for(&tasks[next].source) {
            Err(_) => {
                outcomes.push(Outcome::InvalidReference);
                next += 1;
            },
            Ok(key) => {
                return Progress::Ask(
                    Ingestion {
                        tasks,
                        position: next,
                        done: outcomes,
                        stage: Stage::Source(key),
                        strictness,
                    },
                );
            },
        }
    }
    Progress::Finished(Report { outcomes, error: None })
}

fn settle(
    tasks: Vec<Task>,
    position: usize,
    done: Vec<Outcome>,
    strictness: Strictness,
    outcome: Outcome,
) -> (p: Progress)
    requires
        position < tasks@.len(),
    ensures
        p@ == begin(task_views(tasks@).skip(position + 1), done@.push(outcome), strictness),
{
    let total = tasks.len();
    assert(position < total);
    let mut done = done;
    done.push(outcome);
    begin_at(tasks, position + 1, done, strictness)
}

fn abort(done: Vec<Outcome>, error: RunError) -> (p: Progress)
    ensures
        p@ == ProgressView::Finished(ReportView { outcomes: done@, error: Some(error) }),
{
    Progress::Finished(Report { outcomes: done, error: Some(error) })
}

impl Ingestion {
    #[verifier::type_invariant]
    spec fn in_range(&self) -> bool {
        self.position < self.tasks@.len()
    }

    /// Starts a run over `tasks`.
    pub fn begin(tasks: Vec<Task>, strictness: Strictness) -> (p: Progress)
        ensures
            p@ == begin(task_views(tasks@), Seq::empty(), strictness),
    {
        assert(task_views(tasks@).skip(0) =~= task_views(tasks@));
        begin_at(tasks, 0, Vec::new(), strictness)
    }

    /// The request to perform next.
    pub fn request(&self) -> (r: Request)
        ensures
            r@ == self@.request(),
    {
        match &self.stage {
            Stage::Source(key) => Request::Lookup(key.clone()),
            Stage::Target(_, key) => Request::Lookup(key.clone()),
            Stage::Write(w) => w.request(),
        }
    }

    /// Gives the run up where it stands, for the reason `error`.
    pub fn abandon(self, error: RunError) -> (report: Report)
        ensures
            report@ == (ReportView { outcomes: self@.done, error: Some(error) }),
    {
        Report { outcomes: self.done, error: Some(error) }
    }

    /// Takes the answer to [`Ingestion::request`] and says how to go on.
    pub fn receive(self, reply: Reply) -> (p: Progress)
        ensures
            p@ == self@.receive(reply),
    {
        proof {
            use_type_invariant(&self);
        }
        let Ingestion { tasks, position, done, stage, strictness } = self;
        match stage {
            Stage::Source(_) => match found(reply) {
                Err(e) => abort(done, e),
                Ok(None) => settle(tasks, position, done, strictness, Outcome::SourceMissing),
                Ok(Some(start)) => match key_for(&tasks[position].target) {
                    Err(_) => settle(tasks, position, done, strictness, Outcome::InvalidReference),
                    Ok(key) => Progress::Ask(
                        Ingestion { tasks, position, done, stage: Stage::Target(start, key), strictness },
                    ),
                },
            },
            Stage::Target(start, _) => match found(reply) {
                Err(e) => abort(done, e),
                Ok(None) => settle(tasks, position, done, strictness, Outcome::TargetMissing),
                Ok(Some(end)) => match &tasks[position].rel_type {
                    None => settle(tasks, position, done, strictness, Outcome::TypeRejected),
                    Some(rel_type) => {
                        let link = Link { start, end, rel_type: rel_type.clone() };
                        let writer = Writer::new(link, strictness);
                        Progress::Ask(
                            Ingestion { tasks, position, done, stage: Stage::Write(writer), strictness },
                        )
                    },
                },
            },
            Stage::Write(writer) => match writer.receive(reply) {
                Step::Continue(next) => Progress::Ask(
                    Ingestion { tasks, position, done, stage: Stage::Write(next), strictness },
                ),
                Step::Finished(r) => match task_result(r) {
                    Ok(outcome) => settle(tasks, position, done, strictness, outcome),
                    Err(e) => abort(done, e),
                },
            },
        }
    }
}

/// Runs a batch of tasks against a graph in memory. Every task is
/// completed: a graph in memory never fails.
#[verifier::loop_isolation(false)]
pub fn ingest(graph: &mut MemoryGraph, tasks: Vec<Task>, strictness: Strictness) -> (report: Report)
    ensures
        final(graph)@ == ingest_all(old(graph)@, task_views(tasks@), strictness).0,
        report@.outcomes == ingest_all(old(graph)@, task_views(tasks@), strictness).1,
        report@.error is None,
        old(graph)@.wf() ==> final(graph)@.wf(),
{
    let ghost goal = ingest_all(graph@, task_views(tasks@), strictness);
    proof {
        lemma_run_is_ingest(graph@, task_views(tasks@), Seq::empty(), strictness);
    }
    let mut progress = Ingestion::begin(tasks, strictness);
    loop
        invariant
            run_progress(progress@, graph@).0 == goal.0,
            run_progress(progress@, graph@).1 == (ReportView { outcomes: goal.1, error: None }),
            old(graph)@.wf() ==> graph@.wf(),
        decreases
            (match progress@ {
                ProgressView::Ask(m) => m.upcoming.len() + 1,
                ProgressView::Finished(_) => 0,
            }),
            (match progress@ {
                ProgressView::Ask(m) => m.rounds_left(),
                ProgressView::Finished(_) => 0,
            }),
    {
        match progress {
            Progress::Finished(report) => {
                return report;
            },
            Progress::Ask(m) => {
                let ghost before = m@;
                let request = m.request();
                let reply = graph.execute(&request);
                progress = m.receive(reply);
                proof {
                    lemma_receive_shrinks(before, reply);
                }
            },
        }
    }
}

/// After an answer an ingestion has fewer tasks ahead, or as many and fewer
/// answers to wait for in its current task.
pub proof fn lemma_receive_shrinks(m: IngestionView, reply: Reply)
    ensures
        m.receive(reply) matches ProgressView::Ask(next) ==> next.upcoming.len() < m.upcoming.len()
            || (next.upcoming.len() == m.upcoming.len() && next.rounds_left() < m.rounds_left()),
{
    lemma_begin_shrinks(m.upcoming, m.done.push(Outcome::SourceMissing), m.strictness);
    lemma_begin_shrinks(m.upcoming, m.done.push(Outcome::TargetMissing), m.strictness);
    lemma_begin_shrinks(m.upcoming, m.done.push(Outcome::InvalidReference), m.strictness);
    lemma_begin_shrinks(m.upcoming, m.done.push(Outcome::TypeRejected), m.strictness);
    if let StageView::Write(w) = m.stage {
        if let WriterStep::Finished(r) = w.receive(reply) {
            if let Ok(outcome) = written(r) {
                lemma_begin_shrinks(m.upcoming, m.done.push(outcome), m.strictness);
            }
        }
    }
}

} // verus!
