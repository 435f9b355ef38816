use graph_ingest::graph::{MemoryGraph, Node};
use graph_ingest::reltype::RelType;
use graph_ingest::store::{Failure, Link, Reply, Request};
use graph_ingest::writer::{
    ensure_relationship, Phase, Step, Strictness, WriteError, WriteOutcome, Writer,
};

fn two_nodes() -> MemoryGraph {
    let mut g = MemoryGraph::new();
    g.add_node(Node { id: 1, external_id: Some("A".to_string()), content: "intro".to_string() });
    g.add_node(Node { id: 2, external_id: Some("B".to_string()), content: "conclusion".to_string() });
    g
}

fn link(start: i64, end: i64) -> Link {
    Link { start, end, rel_type: RelType::similar_to() }
}

fn writer(strictness: Strictness) -> Writer {
    Writer::new(link(1, 2), strictness)
}

fn advance(w: Writer, reply: Reply) -> Writer {
    match w.receive(reply) {
        Step::Continue(next) => next,
        Step::Finished(r) => panic!("finished early: {:?}", r),
    }
}

fn finish(w: Writer, reply: Reply) -> Result<WriteOutcome, WriteError> {
    match w.receive(reply) {
        Step::Continue(next) => panic!("not finished: {:?}", next),
        Step::Finished(r) => r,
    }
}

#[test]
fn writing_twice_leaves_exactly_one_edge() {
    let mut g = two_nodes();
    assert_eq!(ensure_relationship(&mut g, &link(1, 2), Strictness::Strict), Ok(WriteOutcome::Created));
    assert_eq!(g.edge_count(1, 2, "SIMILAR_TO"), 1);
    assert_eq!(
        ensure_relationship(&mut g, &link(1, 2), Strictness::Strict),
        Ok(WriteOutcome::AlreadyPresent)
    );
    assert_eq!(g.edge_count(1, 2, "SIMILAR_TO"), 1);
    assert_eq!(g.edge_total(), 1);
}

#[test]
fn direction_and_type_tell_edges_apart() {
    let mut g = two_nodes();
    assert_eq!(ensure_relationship(&mut g, &link(1, 2), Strictness::Lenient), Ok(WriteOutcome::Created));
    assert_eq!(ensure_relationship(&mut g, &link(2, 1), Strictness::Lenient), Ok(WriteOutcome::Created));
    let part_of = Link { start: 1, end: 2, rel_type: RelType::part_of() };
    assert_eq!(ensure_relationship(&mut g, &part_of, Strictness::Lenient), Ok(WriteOutcome::Created));
    assert_eq!(g.edge_total(), 3);
    assert_eq!(g.edge_count(1, 2, "SIMILAR_TO"), 1);
    assert_eq!(g.edge_count(2, 1, "SIMILAR_TO"), 1);
    assert_eq!(g.edge_count(1, 2, "PART_OF"), 1);
}

#[test]
fn an_edge_that_cannot_be_seen_is_a_warning_when_lenient() {
    let mut g = two_nodes();
    assert_eq!(
        ensure_relationship(&mut g, &link(1, 77), Strictness::Lenient),
        Ok(WriteOutcome::Unverified)
    );
    assert_eq!(g.edge_total(), 0);
}

#[test]
fn an_edge_that_cannot_be_seen_is_an_error_when_strict() {
    let mut g = two_nodes();
    assert_eq!(
        ensure_relationship(&mut g, &link(77, 2), Strictness::Strict),
        Err(WriteError::NotVerified)
    );
    assert_eq!(g.edge_total(), 0);
}

#[test]
fn a_writer_checks_then_creates_then_checks_again() {
    let w = writer(Strictness::Strict);
    assert_eq!(w.phase(), Phase::Checking);
    assert_eq!(w.request(), Request::Probe(link(1, 2)));
    let w = advance(w, Reply::Found(false));
    assert_eq!(w.phase(), Phase::Creating);
    assert_eq!(w.request(), Request::Create(link(1, 2)));
    let w = advance(w, Reply::Done);
    assert_eq!(w.phase(), Phase::Verifying);
    assert_eq!(w.request(), Request::Probe(link(1, 2)));
    assert_eq!(finish(w, Reply::Found(true)), Ok(WriteOutcome::Created));
}

#[test]
fn a_writer_sends_nothing_more_once_the_edge_is_found() {
    assert_eq!(finish(writer(Strictness::Strict), Reply::Found(true)), Ok(WriteOutcome::AlreadyPresent));
}

#[test]
fn a_failed_verification_follows_the_strictness() {
    let w = advance(advance(writer(Strictness::Lenient), Reply::Found(false)), Reply::Done);
    assert_eq!(finish(w, Reply::Found(false)), Ok(WriteOutcome::Unverified));
    let w = advance(advance(writer(Strictness::Strict), Reply::Found(false)), Reply::Done);
    assert_eq!(finish(w, Reply::Found(false)), Err(WriteError::NotVerified));
}

#[test]
fn a_refused_creation_fails_this_edge_alone() {
    let w = advance(writer(Strictness::Lenient), Reply::Found(false));
    let r = finish(w, Reply::Failed(Failure::Rejected));
    assert_eq!(r, Err(WriteError::CreateRejected));
    assert!(!WriteError::CreateRejected.is_fatal());
    assert!(!WriteError::NotVerified.is_fatal());
}

#[test]
fn a_store_out_of_reach_is_fatal_in_every_phase() {
    let unreachable = Reply::Failed(Failure::Unreachable);
    assert_eq!(finish(writer(Strictness::Lenient), unreachable), Err(WriteError::Unreachable));
    let w = advance(writer(Strictness::Lenient), Reply::Found(false));
    assert_eq!(finish(w, unreachable), Err(WriteError::Unreachable));
    let w = advance(advance(writer(Strictness::Lenient), Reply::Found(false)), Reply::Done);
    assert_eq!(finish(w, unreachable), Err(WriteError::Unreachable));
    assert!(WriteError::Unreachable.is_fatal());
}

#[test]
fn a_refused_probe_is_fatal() {
    let rejected = Reply::Failed(Failure::Rejected);
    assert_eq!(finish(writer(Strictness::Lenient), rejected), Err(WriteError::QueryRejected));
    let w = advance(advance(writer(Strictness::Lenient), Reply::Found(false)), Reply::Done);
    assert_eq!(finish(w, rejected), Err(WriteError::QueryRejected));
    assert!(WriteError::QueryRejected.is_fatal());
}

#[test]
fn an_answer_of_the_wrong_kind_is_fatal() {
    assert_eq!(finish(writer(Strictness::Lenient), Reply::Done), Err(WriteError::UnexpectedReply));
    assert_eq!(
        finish(writer(Strictness::Lenient), Reply::Node(Some(1))),
        Err(WriteError::UnexpectedReply)
    );
    let w = advance(writer(Strictness::Lenient), Reply::Found(false));
    assert_eq!(finish(w, Reply::Found(true)), Err(WriteError::UnexpectedReply));
    let w = advance(advance(writer(Strictness::Lenient), Reply::Found(false)), Reply::Done);
    assert_eq!(finish(w, Reply::Node(None)), Err(WriteError::UnexpectedReply));
    assert!(WriteError::UnexpectedReply.is_fatal());
}
