//! A whole run, from the export of the nodes to the last edge.
//!
//! A run goes one way: the nodes are exported, the analyzer is invoked on
//! them, its output is decoded, and the candidates are ingested. The
//! [`Pipeline`] decides each step and leaves the doing to its caller: the
//! caller performs [`Pipeline::action`] and hands back what happened. A
//! failure of the store, of the analyzer or of the decoding ends the run on
//! the spot; nothing else does.

use vstd::prelude::*;
use crate::candidates::{Candidates, DecodeError, decode_text};
use crate::export::{
    ExportRecord, ExportRecordView, analyzer_input, export, export_of, input_text, record_views,
};
use crate::graph::{GraphView, MemoryGraph, Node, NodeView, answer, node_views};
use crate::ingest::{
    Ingestion, IngestionView, Outcome, Progress, ProgressView, Report, ReportView, RunError, begin,
    ingest_all, lemma_receive_shrinks, lemma_run_is_ingest, lookup_failure, run_ingestion,
};
use crate::plan::tasks_of;
use crate::store::{Failure, Reply, Request, RequestView};
use crate::writer::Strictness;

verus! {

/// What ends a run on the spot.
#[derive(Clone, Copy, Debug, PartialEq, Eq, Structural)]
pub enum Fatal {
    /// The store failed.
    Transport(RunError),
    /// The analyzer failed.
    Analyzer,
    /// The analyzer's output was not understood.
    Decode(DecodeError),
    /// The caller reported something that was not asked for.
    OutOfTurn,
}

/// How a run ended: the outcome of every candidate that was completed, in
/// order, and what ended the run early, if anything did.
#[derive(Clone, Debug, PartialEq, Eq)]
pub struct Summary {
    pub outcomes: Vec<Outcome>,
    pub fatal: Option<Fatal>,
}

/// [`Summary`] as a mathematical value.
pub struct SummaryView {
    pub outcomes: Seq<Outcome>,
    pub fatal: Option<Fatal>,
}

impl View for Summary {
    type V = SummaryView;

    open spec fn view(&self) -> SummaryView {
        SummaryView { outcomes: self.outcomes@, fatal: self.fatal }
    }
}

/// What the caller is to do next.
#[derive(Debug)]
pub enum Action {
    /// Read all nodes from the store.
    ExportNodes,
    /// Invoke the analyzer on this input.
    Analyze(String),
    /// Perform this request on the store.
    Ask(Request),
}

/// [`Action`] as a mathematical value.
pub enum ActionView {
    ExportNodes,
    Analyze(Seq<char>),
    Ask(RequestView),
}

impl View for Action {
    type V = ActionView;

    open spec fn view(&self) -> ActionView {
        match self {
            Action::ExportNodes => ActionView::ExportNodes,
            Action::Analyze(input) => ActionView::Analyze(input@),
            Action::Ask(request) => ActionView::Ask(request@),
        }
    }
}

/// What happened when the caller did as it was told.
#[derive(Debug)]
pub enum Event {
    /// The nodes of the store, in the order in which it yields them.
    Exported(Vec<Node>),
    /// The nodes could not be read.
    ExportFailed(Failure),
    /// The analyzer ran to its end and left this text.
    Analyzed(String),
    /// The analyzer could not be run, or reported failure.
    AnalyzerFailed,
    /// The store's answer to a request.
    Answered(Reply),
}

/// [`Event`] as a mathematical value.
pub enum EventView {
    Exported(Seq<NodeView>),
    ExportFailed(Failure),
    Analyzed(Seq<char>),
    AnalyzerFailed,
    Answered(Reply),
}

impl View for Event {
    type V = EventView;

    open spec fn view(&self) -> EventView {
        match self {
            Event::Exported(nodes) => EventView::Exported(node_views(nodes@)),
            Event::ExportFailed(f) => EventView::ExportFailed(*f),
            Event::Analyzed(text) => EventView::Analyzed(text@),
            Event::AnalyzerFailed => EventView::AnalyzerFailed,
            Event::Answered(reply) => EventView::Answered(*reply),
        }
    }
}

/// How far a run has come.
pub enum StateView {
    /// Nothing has happened yet.
    Start,
    /// The nodes are exported, as this input for the analyzer, which has
    /// yet to answer.
    NodesExported(Seq<char>),
    /// The candidates are decoded and being ingested.
    Ingesting(IngestionView),
}

/// A run as a mathematical value.
pub struct PipelineView {
    pub strictness: Strictness,
    pub state: StateView,
}

/// What a run does after an event.
pub enum NextView {
    /// It has another action.
    Continue(PipelineView),
    /// It is over.
    Finished(SummaryView),
}

/// The records under which nodes are handed to the analyzer.
pub open spec fn exports(nodes: Seq<NodeView>) -> Seq<ExportRecordView> {
    Seq::new(nodes.len(), |i: int| export_of(nodes[i]))
}

/// The summary of an ingestion's report.
pub open spec fn summary_of(report: ReportView) -> SummaryView {
    SummaryView {
        outcomes: report.outcomes,
        fatal: match report.error {
            Some(e) => Some(Fatal::Transport(e)),
            None => None,
        },
    }
}

/// A run that ends before any candidate was completed.
pub open spec fn failed(fatal: Fatal) -> NextView {
    NextView::Finished(SummaryView { outcomes: Seq::empty(), fatal: Some(fatal) })
}

impl PipelineView {
    /// What the caller is to do next.
    pub open spec fn action(self) -> ActionView {
        match self.state {
            StateView::Start => ActionView::ExportNodes,
            StateView::NodesExported(input) => ActionView::Analyze(input),
            StateView::Ingesting(m) => ActionView::Ask(m.request()),
        }
    }

    /// The run in another state.
    pub open spec fn at(self, state: StateView) -> PipelineView {
        PipelineView { strictness: self.strictness, state }
    }

    /// How the run goes on with an ingestion's progress.
    pub open spec fn ingesting(self, progress: ProgressView) -> NextView {
        match progress {
            ProgressView::Ask(m) => NextView::Continue(self.at(StateView::Ingesting(m))),
            ProgressView::Finished(report) => NextView::Finished(summary_of(report)),
        }
    }

    /// What the run does with an event.
    pub open spec fn receive(self, event: EventView) -> NextView {
        match self.state {
            StateView::Start => match event {
                EventView::Exported(nodes) => NextView::Continue(
                    self.at(StateView::NodesExported(input_text(exports(nodes)))),
                ),
                EventView::ExportFailed(f) => failed(Fatal::Transport(lookup_failure(f))),
                _ => failed(Fatal::OutOfTurn),
            },
            StateView::NodesExported(_) => match event {
                EventView::Analyzed(text) => match decode_text(text) {
                    Err(e) => failed(Fatal::Decode(e)),
                    Ok(c) => self.ingesting(begin(tasks_of(c), Seq::empty(), self.strictness)),
                },
                EventView::AnalyzerFailed => failed(Fatal::Analyzer),
                _ => failed(Fatal::OutOfTurn),
            },
            StateView::Ingesting(m) => match event {
                EventView::Answered(reply) => self.ingesting(m.receive(reply)),
                _ => NextView::Finished(
                    SummaryView { outcomes: m.done, fatal: Some(Fatal::OutOfTurn) },
                ),
            },
        }
    }

    /// How far the run is from its end: the states are passed through in
    /// one direction only.
    pub open spec fn stage(self) -> nat {
        match self.state {
            StateView::Start => 2,
            StateView::NodesExported(_) => 1,
            StateView::Ingesting(_) => 0,
        }
    }
}

/// A run never goes back: after an event it is in the same state or in a
/// later one, and it stays in a state only while it ingests.
pub proof fn lemma_pipeline_is_linear(p: PipelineView, event: EventView)
    ensures
        p.receive(event) matches NextView::Continue(next) ==> next.stage() < p.stage() || (
        next.stage() == p.stage() && p.state is Ingesting),
{
}

/// Where a run stands.
#[derive(Debug)]
pub enum State {
    /// Nothing has happened yet.
    Start,
    /// The nodes are exported, as this input for the analyzer, which has
    /// yet to answer.
    NodesExported(String),
    /// The candidates are decoded and being ingested.
    Ingesting(Ingestion),
}

impl View for State {
    type V = StateView;

    open spec fn view(&self) -> StateView {
        match self {
            State::Start => StateView::Start,
            State::NodesExported(input) => StateView::NodesExported(input@),
            State::Ingesting(m) => StateView::Ingesting(m@),
        }
    }
}

/// A run in progress.
#[derive(Debug)]
pub struct Pipeline {
    strictness: Strictness,
    state: State,
}

impl View for Pipeline {
    type V = PipelineView;

    closed spec fn view(&self) -> PipelineView {
        PipelineView { strictness: self.strictness, state: self.state@ }
    }
}

/// What to do after handing an event to a [`Pipeline`].
#[derive(Debug)]
pub enum Next {
    /// Perform the pipeline's next action.
    Continue(Pipeline),
    /// The run is over.
    Finished(Summary),
}

impl View for Next {
    type V = NextView;

    open spec fn view(&self) -> NextView {
        match self {
            Next::Continue(p) => NextView::Continue(p@),
            Next::Finished(summary) => NextView::Finished(summary@),
        }
    }
}

fn export_all(nodes: &Vec<Node>) -> (records: Vec<ExportRecord>)
    ensures
        record_views(records@) == exports(node_views(nodes@)),
{
    let mut records: Vec<ExportRecord> = Vec::new();
    for i in 0..nodes.len()
        invariant
            records@.len() == i,
            forall|j: int| 0 <= j < i ==> (#[trigger] records@[j])@ == export_of(nodes@[j]@),
    {
        records.push(export(&nodes[i]));
    }
    assert(record_views(records@) =~= exports(node_views(nodes@)));
    records
}

fn give_up(fatal: Fatal) -> (n: Next)
    ensures
        n@ == failed(fatal),
{
    Next::Finished(Summary { outcomes: Vec::new(), fatal: Some(fatal) })
}

fn go_on(strictness: Strictness, progress: Progress) -> (n: Next)
    ensures
        n@ == (PipelineView { strictness, state: StateView::Start }).ingesting(progress@),
{
    match progress {
        Progress::Ask(m) => Next::Continue(Pipeline { strictness, state: State::Ingesting(m) }),
        Progress::Finished(report) => {
            let Report { outcomes, error } = report;
            let fatal = match error {
                Some(e) => Some(Fatal::Transport(e)),
                None => None,
            };
            Next::Finished(Summary { outcomes, fatal })
        },
    }
}

impl Pipeline {
    /// A run that has not begun.
    pub fn start(strictness: Strictness) -> (p: Pipeline)
        ensures
            p@ == (PipelineView { strictness, state: StateView::Start }),
    {
        Pipeline { strictness, state: State::Start }
    }

    /// What the caller is to do next.
    pub fn action(&self) -> (a: Action)
        ensures
            a@ == self@.action(),
    {
        match &self.state {
            State::Start => Action::ExportNodes,
            State::NodesExported(input) => Action::Analyze(input.clone()),
            State::Ingesting(m) => Action::Ask(m.request()),
        }
    }

    /// Takes what happened when [`Pipeline::action`] was performed and says
    /// how to go on.
    pub fn receive(self, event: Event) -> (n: Next)
        ensures
            n@ == self@.receive(event@),
    {
        let Pipeline { strictness, state } = self;
        match state {
            State::Start => match event {
                Event::Exported(nodes) => {
                    let input = analyzer_input(&export_all(&nodes));
                    Next::Continue(Pipeline { strictness, state: State::NodesExported(input) })
                },
                Event::ExportFailed(Failure::Unreachable) => give_up(
                    Fatal::Transport(RunError::Unreachable),
                ),
                Event::ExportFailed(Failure::Rejected) => give_up(
                    Fatal::Transport(RunError::QueryRejected),
                ),
                _ => give_up(Fatal::OutOfTurn),
            },
            State::NodesExported(_) => match event {
                Event::Analyzed(text) => match Candidates::from_text(text.as_str()) {
                    Err(e) => give_up(Fatal::Decode(e)),
                    Ok(candidates) => go_on(
                        strictness,
                        Ingestion::begin(candidates.tasks(), strictness),
                    ),
                },
                Event::AnalyzerFailed => give_up(Fatal::Analyzer),
                _ => give_up(Fatal::OutOfTurn),
            },
            State::Ingesting(m) => match event {
                Event::Answered(reply) => go_on(strictness, m.receive(reply)),
                _ => {
                    let report = m.abandon(RunError::UnexpectedReply);
                    Next::Finished(
                        Summary { outcomes: report.outcomes, fatal: Some(Fatal::OutOfTurn) },
                    )
                },
            },
        }
    }
}

/// What a whole run does to a graph when the analyzer leaves `output`, or
/// fails where `output` is `None`.
pub open spec fn run_on(g: GraphView, output: Option<Seq<char>>, strictness: Strictness) -> (
    GraphView,
    SummaryView,
) {
    match output {
        None => (g, SummaryView { outcomes: Seq::empty(), fatal: Some(Fatal::Analyzer) }),
        Some(text) => match decode_text(text) {
            Err(e) => (g, SummaryView { outcomes: Seq::empty(), fatal: Some(Fatal::Decode(e)) }),
            Ok(c) => {
                let done = ingest_all(g, tasks_of(c), strictness);
                (done.0, SummaryView { outcomes: done.1, fatal: None })
            },
        },
    }
}

/// What the world answers to an action of a run: the graph its nodes and
/// its answers, the analyzer its output.
pub open spec fn happens(g: GraphView, output: Option<Seq<char>>, action: ActionView) -> (
    GraphView,
    EventView,
) {
    match action {
        ActionView::ExportNodes => (g, EventView::Exported(g.nodes)),
        ActionView::Analyze(_) => (
            g,
            match output {
                Some(text) => EventView::Analyzed(text),
                None => EventView::AnalyzerFailed,
            },
        ),
        ActionView::Ask(request) => (answer(g, request).0, EventView::Answered(answer(g, request).1)),
    }
}

impl PipelineView {
    /// How many tasks lie ahead of the one at hand, while the run ingests.
    pub open spec fn tasks_left(self) -> nat {
        match self.state {
            StateView::Ingesting(m) => m.upcoming.len(),
            _ => 0,
        }
    }

    /// How many answers the task at hand may still need, while the run
    /// ingests.
    pub open spec fn rounds_left(self) -> nat {
        match self.state {
            StateView::Ingesting(m) => m.rounds_left(),
            _ => 0,
        }
    }
}

/// A run in a world of a graph and an analyzer's output, from where it
/// stands to its end.
pub open spec fn run_pipeline(p: PipelineView, g: GraphView, output: Option<Seq<char>>) -> (
    GraphView,
    SummaryView,
)
    decreases p.stage(), p.tasks_left(), p.rounds_left(),
{
    let (after, event) = happens(g, output, p.action());
    match p.receive(event) {
        NextView::Continue(next) => {
            proof {
                if let StateView::Ingesting(m) = p.state {
                    if let EventView::Answered(reply) = event {
                        lemma_receive_shrinks(m, reply);
                    }
                }
            }
            run_pipeline(next, after, output)
        },
        NextView::Finished(summary) => (after, summary),
    }
}

/// While a run ingests, it does what its ingestion does.
pub proof fn lemma_ingesting_run(p: PipelineView, g: GraphView, output: Option<Seq<char>>)
    requires
        p.state is Ingesting,
    ensures
        run_pipeline(p, g, output).0 == run_ingestion(p.state->Ingesting_0, g).0,
        run_pipeline(p, g, output).1 == summary_of(run_ingestion(p.state->Ingesting_0, g).1),
    decreases p.tasks_left(), p.rounds_left(),
{
    let m = p.state->Ingesting_0;
    let (after, reply) = answer(g, m.request());
    lemma_receive_shrinks(m, reply);
    if let ProgressView::Ask(next) = m.receive(reply) {
        lemma_ingesting_run(p.at(StateView::Ingesting(next)), after, output);
    }
}

/// A run from its start does exactly what [`run_on`] says.
pub proof fn lemma_run_is_run_on(g: GraphView, output: Option<Seq<char>>, strictness: Strictness)
    ensures
        run_pipeline(PipelineView { strictness, state: StateView::Start }, g, output) == run_on(
            g,
            output,
            strictness,
        ),
{
    let start = PipelineView { strictness, state: StateView::Start };
    let exported = start.at(StateView::NodesExported(input_text(exports(g.nodes))));
    assert(run_pipeline(start, g, output) == run_pipeline(exported, g, output));
    if let Some(text) = output {
        if let Ok(c) = decode_text(text) {
            lemma_run_is_ingest(g, tasks_of(c), Seq::empty(), strictness);
            if let ProgressView::Ask(m) = begin(tasks_of(c), Seq::empty(), strictness) {
                lemma_ingesting_run(exported.at(StateView::Ingesting(m)), g, output);
            }
        }
    }
}

fn happen(graph: &mut MemoryGraph, output: Option<&str>, action: Action) -> (event: Event)
    ensures
        final(graph)@ == happens(
            old(graph)@,
            match output {
                Some(text) => Some(text@),
                None => None,
            },
            action@,
        ).0,
        event@ == happens(
            old(graph)@,
            match output {
                Some(text) => Some(text@),
                None => None,
            },
            action@,
        ).1,
        old(graph)@.wf() ==> final(graph)@.wf(),
{
    match action {
        Action::ExportNodes => Event::Exported(graph.nodes()),
        Action::Analyze(_) => match output {
            Some(text) => Event::Analyzed(text.to_owned()),
            None => Event::AnalyzerFailed,
        },
        Action::Ask(request) => Event::Answered(graph.execute(&request)),
    }
}

/// Runs a pipeline against a graph in memory, with `output` standing for
/// what the analyzer leaves, or `None` for an analyzer that fails.
#[verifier::loop_isolation(false)]
pub fn run(graph: &mut MemoryGraph, output: Option<&str>, strictness: Strictness) -> (summary:
    Summary)
    ensures
        final(graph)@ == run_on(
            old(graph)@,
            match output {
                Some(text) => Some(text@),
                None => None,
            },
            strictness,
        ).0,
        summary@ == run_on(
            old(graph)@,
            match output {
                Some(text) => Some(text@),
                None => None,
            },
            strictness,
        ).1,
        old(graph)@.wf() ==> final(graph)@.wf(),
{
    let ghost given: Option<Seq<char>> = match output {
        Some(text) => Some(text@),
        None => None,
    };
    let ghost goal = run_on(graph@, given, strictness);
    proof {
        lemma_run_is_run_on(graph@, given, strictness);
    }
    let mut pipeline = Pipeline::start(strictness);
    loop
        invariant
            old(graph)@.wf() ==> graph@.wf(),
            run_pipeline(pipeline@, graph@, given) == goal,
        decreases pipeline@.stage(), pipeline@.tasks_left(), pipeline@.rounds_left(),
    {
        let ghost before = pipeline@;
        let event = happen(graph, output, pipeline.action());
        proof {
            if let StateView::Ingesting(m) = before.state {
                if let EventView::Answered(reply) = event@ {
                    lemma_receive_shrinks(m, reply);
                }
            }
        }
        match pipeline.receive(event) {
            Next::Continue(next) => {
                pipeline = next;
            },
            Next::Finished(summary) => {
                return summary;
            },
        }
    }
}

} // verus!
