use graph_ingest::candidates::{Category, DecodeError};
use graph_ingest::graph::{MemoryGraph, Node};
use graph_ingest::ingest::{Outcome, RunError};
use graph_ingest::pipeline::{run, Action, Event, Fatal, Next, Pipeline, Summary};
use graph_ingest::reltype::RelType;
use graph_ingest::store::{Failure, Link, NodeKey, Reply, Request};
use graph_ingest::writer::{Strictness, WriteOutcome};

fn s(text: &str) -> String {
    text.to_string()
}

fn nodes() -> Vec<Node> {
    vec![
        Node { id: 1, external_id: Some(s("A")), content: s("intro") },
        Node { id: 2, external_id: None, content: s("conclusion") },
    ]
}

fn on(p: Pipeline, event: Event) -> Pipeline {
    match p.receive(event) {
        Next::Continue(next) => next,
        Next::Finished(summary) => panic!("finished: {:?}", summary),
    }
}

fn end(p: Pipeline, event: Event) -> Summary {
    match p.receive(event) {
        Next::Continue(next) => panic!("not finished: {:?}", next),
        Next::Finished(summary) => summary,
    }
}

fn lookup(p: &Pipeline) -> NodeKey {
    match p.action() {
        Action::Ask(Request::Lookup(key)) => key,
        other => panic!("no lookup: {:?}", other),
    }
}

fn exported() -> Pipeline {
    on(Pipeline::start(Strictness::Strict), Event::Exported(nodes()))
}

fn failed(fatal: Fatal) -> Summary {
    Summary { outcomes: vec![], fatal: Some(fatal) }
}

const TWO_PAIRS: &str = r#"{
    "similar_pairs": [
        {"start_id": "A", "end_id": "2", "similarity": 0.5},
        {"start_id": "2", "end_id": "A", "similarity": 0.5}
    ],
    "keyword_pairs": [],
    "causal_pairs": [],
    "hierarchical_pairs": []
}"#;

#[test]
fn a_run_exports_then_analyzes_then_asks() {
    let p = Pipeline::start(Strictness::Strict);
    assert!(matches!(p.action(), Action::ExportNodes));
    let p = on(p, Event::Exported(nodes()));
    match p.action() {
        Action::Analyze(input) => assert_eq!(
            input,
            r#"[{"id":"A","content":"intro"},{"id":"2","content":"conclusion"}]"#
        ),
        other => panic!("no analysis: {:?}", other),
    }
    let p = on(p, Event::Analyzed(s(TWO_PAIRS)));
    assert_eq!(lookup(&p), NodeKey::ExternalId(s("A")));
    let p = on(p, Event::Answered(Reply::Node(Some(1))));
    assert_eq!(lookup(&p), NodeKey::Id(2));
    let p = on(p, Event::Answered(Reply::Node(Some(2))));
    match p.action() {
        Action::Ask(request) => assert_eq!(
            request,
            Request::Probe(Link { start: 1, end: 2, rel_type: RelType::similar_to() })
        ),
        other => panic!("no probe: {:?}", other),
    }
    let p = on(p, Event::Answered(Reply::Found(true)));
    assert_eq!(lookup(&p), NodeKey::Id(2));
    let summary = end(p, Event::Answered(Reply::Node(None)));
    assert_eq!(
        summary,
        Summary {
            outcomes: vec![Outcome::Linked(WriteOutcome::AlreadyPresent), Outcome::SourceMissing],
            fatal: None,
        }
    );
}

#[test]
fn a_failed_export_ends_the_run() {
    let p = Pipeline::start(Strictness::Strict);
    assert_eq!(
        end(p, Event::ExportFailed(Failure::Unreachable)),
        failed(Fatal::Transport(RunError::Unreachable))
    );
    let p = Pipeline::start(Strictness::Strict);
    assert_eq!(
        end(p, Event::ExportFailed(Failure::Rejected)),
        failed(Fatal::Transport(RunError::QueryRejected))
    );
}

#[test]
fn a_failed_analyzer_ends_the_run() {
    assert_eq!(end(exported(), Event::AnalyzerFailed), failed(Fatal::Analyzer));
    let mut g = MemoryGraph::new();
    assert_eq!(run(&mut g, None, Strictness::Strict), failed(Fatal::Analyzer));
}

#[test]
fn output_that_is_not_understood_ends_the_run() {
    assert_eq!(
        end(exported(), Event::Analyzed(s("{"))),
        failed(Fatal::Decode(DecodeError::Syntax))
    );
    assert_eq!(
        end(exported(), Event::Analyzed(s("{}"))),
        failed(Fatal::Decode(DecodeError::MissingList(Category::Similar)))
    );
}

#[test]
fn output_without_candidates_ends_the_run_well() {
    let doc = r#"{"similar_pairs": [], "keyword_pairs": [], "causal_pairs": [], "hierarchical_pairs": []}"#;
    assert_eq!(end(exported(), Event::Analyzed(s(doc))), Summary { outcomes: vec![], fatal: None });
}

#[test]
fn a_store_that_fails_while_ingesting_ends_the_run_with_what_was_done() {
    let p = on(exported(), Event::Analyzed(s(TWO_PAIRS)));
    let p = on(p, Event::Answered(Reply::Node(None)));
    assert_eq!(
        end(p, Event::Answered(Reply::Failed(Failure::Unreachable))),
        Summary {
            outcomes: vec![Outcome::SourceMissing],
            fatal: Some(Fatal::Transport(RunError::Unreachable)),
        }
    );
}

#[test]
fn an_event_out_of_turn_ends_the_run() {
    let start = || Pipeline::start(Strictness::Lenient);
    assert_eq!(end(start(), Event::Analyzed(s(TWO_PAIRS))), failed(Fatal::OutOfTurn));
    assert_eq!(end(start(), Event::AnalyzerFailed), failed(Fatal::OutOfTurn));
    assert_eq!(end(start(), Event::Answered(Reply::Done)), failed(Fatal::OutOfTurn));
    assert_eq!(end(exported(), Event::Exported(nodes())), failed(Fatal::OutOfTurn));
    assert_eq!(end(exported(), Event::ExportFailed(Failure::Rejected)), failed(Fatal::OutOfTurn));
    assert_eq!(end(exported(), Event::Answered(Reply::Node(None))), failed(Fatal::OutOfTurn));
    let p = on(exported(), Event::Analyzed(s(TWO_PAIRS)));
    let p = on(p, Event::Answered(Reply::Node(None)));
    assert_eq!(
        end(p, Event::AnalyzerFailed),
        Summary { outcomes: vec![Outcome::SourceMissing], fatal: Some(Fatal::OutOfTurn) }
    );
}

#[test]
fn a_run_in_memory_links_what_resolves() {
    let mut g = MemoryGraph::new();
    for n in nodes() {
        g.add_node(n);
    }
    assert_eq!(g.nodes(), nodes());
    let summary = run(&mut g, Some(TWO_PAIRS), Strictness::Strict);
    assert_eq!(
        summary,
        Summary { outcomes: vec![Outcome::Linked(WriteOutcome::Created); 2], fatal: None }
    );
    assert_eq!(g.edge_count(1, 2, "SIMILAR_TO"), 1);
    assert_eq!(g.edge_count(2, 1, "SIMILAR_TO"), 1);
    assert_eq!(g.edge_total(), 2);
}
