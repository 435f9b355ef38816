//! What holds of every batch that is run against a graph: a task that
//! resolves to nothing disturbs no other task, every task that resolves
//! gets its edge, and a second run over the same batch changes nothing.

use vstd::prelude::*;
use crate::graph::{GraphView, count, lemma_count_push, lemma_found_node_exists};
use crate::candidates::decode_text;
use crate::ingest::{Outcome, TaskView, endpoint_key, ingest_all, ingest_from, link, planned};
use crate::pipeline::run_on;
use crate::plan::tasks_of;
use crate::store::Triple;
use crate::writer::Strictness;

verus! {

/// One task never adds or removes a node and never removes an edge. Where
/// it asks for no edge, or for one that is there, it changes nothing; where
/// it asks for an edge, the edge is there afterwards and the task ends as
/// linked.
pub proof fn lemma_link_effect(g: GraphView, task: TaskView, strictness: Strictness, t: Triple)
    ensures
        link(g, task, strictness).0.nodes == g.nodes,
        count(link(g, task, strictness).0.edges, t) >= count(g.edges, t),
        planned(g.nodes, task) is None ==> {
            &&& link(g, task, strictness).0 == g
            &&& !(link(g, task, strictness).1 is Linked)
            &&& !(link(g, task, strictness).1 is WriteFailed)
        },
        planned(g.nodes, task) matches Some(p) ==> {
            &&& link(g, task, strictness).0.has_edge(p)
            &&& link(g, task, strictness).1 is Linked
            &&& g.has_edge(p) ==> link(g, task, strictness).0 == g
        },
{
    if let Some(p) = planned(g.nodes, task) {
        lemma_count_push(g.edges, p, t);
        lemma_count_push(g.edges, p, p);
        lemma_found_node_exists(g, endpoint_key(task.source)->Ok_0);
        lemma_found_node_exists(g, endpoint_key(task.target)->Ok_0);
    }
}

/// The outcomes handed to a run stand in front of its own, and have no
/// other influence.
pub proof fn lemma_done_is_a_prefix(
    g: GraphView,
    tasks: Seq<TaskView>,
    done: Seq<Outcome>,
    strictness: Strictness,
)
    ensures
        ingest_from(g, tasks, done, strictness).0 == ingest_all(g, tasks, strictness).0,
        ingest_from(g, tasks, done, strictness).1 == done + ingest_all(g, tasks, strictness).1,
    decreases tasks.len(),
{
    let empty = Seq::<Outcome>::empty();
    if tasks.len() == 0 {
        assert(done + empty =~= done);
    } else {
        let (after, o) = link(g, tasks[0], strictness);
        let rest = tasks.drop_first();
        lemma_done_is_a_prefix(after, rest, done.push(o), strictness);
        lemma_done_is_a_prefix(after, rest, empty.push(o), strictness);
        let tail = ingest_all(after, rest, strictness).1;
        assert(done.push(o) + tail =~= done + (empty.push(o) + tail));
    }
}

/// A run of a batch is the run of its first task, followed by the run of
/// the others on the graph that the first task left.
pub proof fn lemma_ingest_unfolds(g: GraphView, tasks: Seq<TaskView>, strictness: Strictness)
    requires
        tasks.len() > 0,
    ensures
        ingest_all(g, tasks, strictness).0 == ingest_all(
            link(g, tasks[0], strictness).0,
            tasks.drop_first(),
            strictness,
        ).0,
        ingest_all(g, tasks, strictness).1 == seq![link(g, tasks[0], strictness).1] + ingest_all(
            link(g, tasks[0], strictness).0,
            tasks.drop_first(),
            strictness,
        ).1,
{
    let (after, o) = link(g, tasks[0], strictness);
    lemma_done_is_a_prefix(after, tasks.drop_first(), Seq::empty().push(o), strictness);
    assert(Seq::<Outcome>::empty().push(o) =~= seq![o]);
}

/// A run never adds or removes a node, never removes an edge, and has one
/// outcome for every task.
pub proof fn lemma_ingest_keeps(g: GraphView, tasks: Seq<TaskView>, strictness: Strictness, t: Triple)
    ensures
        ingest_all(g, tasks, strictness).0.nodes == g.nodes,
        count(ingest_all(g, tasks, strictness).0.edges, t) >= count(g.edges, t),
        ingest_all(g, tasks, strictness).1.len() == tasks.len(),
    decreases tasks.len(),
{
    if tasks.len() > 0 {
        lemma_link_effect(g, tasks[0], strictness, t);
        lemma_ingest_unfolds(g, tasks, strictness);
        lemma_ingest_keeps(link(g, tasks[0], strictness).0, tasks.drop_first(), strictness, t);
    }
}

/// The outcome of a task depends on the graph as the tasks before it left
/// it: it is the outcome of the task alone on that graph.
pub proof fn lemma_outcome_of_task(g: GraphView, tasks: Seq<TaskView>, strictness: Strictness, k: int)
    requires
        0 <= k < tasks.len(),
    ensures
        ingest_all(g, tasks, strictness).1.len() == tasks.len(),
        ingest_all(g, tasks, strictness).1[k] == link(
            ingest_all(g, tasks.take(k), strictness).0,
            tasks[k],
            strictness,
        ).1,
    decreases tasks.len(),
{
    lemma_ingest_keeps(g, tasks, strictness, arbitrary());
    lemma_ingest_unfolds(g, tasks, strictness);
    let after = link(g, tasks[0], strictness).0;
    let rest = tasks.drop_first();
    if k == 0 {
        assert(tasks.take(0) =~= Seq::<TaskView>::empty());
    } else {
        lemma_outcome_of_task(after, rest, strictness, k - 1);
        assert(rest[k - 1] == tasks[k]);
        assert(tasks.take(k).drop_first() =~= rest.take(k - 1));
        lemma_ingest_unfolds(g, tasks.take(k), strictness);
        lemma_ingest_keeps(after, rest, strictness, arbitrary());
    }
}

/// Partial-failure isolation. A task that comes to no edge, because an end
/// of it matches no node or names none, or because its type was not
/// admitted, is passed over: the graph ends up as if the task had not been
/// in the batch, and the outcomes of the other tasks are what they would
/// have been without it.
pub proof fn lemma_unresolved_task_is_isolated(
    g: GraphView,
    tasks: Seq<TaskView>,
    strictness: Strictness,
    k: int,
)
    requires
        0 <= k < tasks.len(),
        planned(g.nodes, tasks[k]) is None,
    ensures
        ingest_all(g, tasks, strictness).0 == ingest_all(g, tasks.remove(k), strictness).0,
        ingest_all(g, tasks, strictness).1.len() == tasks.len(),
        ingest_all(g, tasks, strictness).1.remove(k) == ingest_all(
            g,
            tasks.remove(k),
            strictness,
        ).1,
        ingest_all(g, tasks, strictness).1[k] == link(g, tasks[k], strictness).1,
    decreases tasks.len(),
{
    lemma_ingest_keeps(g, tasks, strictness, arbitrary());
    lemma_ingest_unfolds(g, tasks, strictness);
    lemma_link_effect(g, tasks[0], strictness, arbitrary());
    let (after, o) = link(g, tasks[0], strictness);
    let rest = tasks.drop_first();
    let tail = ingest_all(after, rest, strictness).1;
    if k == 0 {
        assert(tasks.remove(0) =~= rest);
        assert((seq![o] + tail).remove(0) =~= tail);
    } else {
        let others = tasks.remove(k);
        assert(others[0] == tasks[0]);
        assert(others.drop_first() =~= rest.remove(k - 1));
        assert(rest[k - 1] == tasks[k]);
        lemma_unresolved_task_is_isolated(after, rest, strictness, k - 1);
        lemma_ingest_unfolds(g, others, strictness);
        lemma_ingest_keeps(after, rest, strictness, arbitrary());
        assert((seq![o] + tail).remove(k) =~= seq![o] + tail.remove(k - 1));
        assert(link(after, tasks[k], strictness).1 == link(g, tasks[k], strictness).1);
    }
}

/// Every task whose ends resolve, with an admitted type, is linked: its
/// edge is in the graph when the run is over.
pub proof fn lemma_resolved_tasks_are_linked(
    g: GraphView,
    tasks: Seq<TaskView>,
    strictness: Strictness,
    j: int,
)
    requires
        0 <= j < tasks.len(),
        planned(g.nodes, tasks[j]) is Some,
    ensures
        ingest_all(g, tasks, strictness).0.has_edge(planned(g.nodes, tasks[j])->Some_0),
        ingest_all(g, tasks, strictness).1.len() == tasks.len(),
        ingest_all(g, tasks, strictness).1[j] is Linked,
    decreases tasks.len(),
{
    let p = planned(g.nodes, tasks[j])->Some_0;
    lemma_ingest_keeps(g, tasks, strictness, p);
    lemma_ingest_unfolds(g, tasks, strictness);
    lemma_link_effect(g, tasks[0], strictness, p);
    let after = link(g, tasks[0], strictness).0;
    let rest = tasks.drop_first();
    lemma_ingest_keeps(after, rest, strictness, p);
    if j > 0 {
        assert(rest[j - 1] == tasks[j]);
        lemma_resolved_tasks_are_linked(after, rest, strictness, j - 1);
    }
}

/// A run over a graph that already holds every edge that its tasks ask for
/// changes nothing.
pub proof fn lemma_covered_run_changes_nothing(
    h: GraphView,
    tasks: Seq<TaskView>,
    strictness: Strictness,
)
    requires
        forall|i: int|
            0 <= i < tasks.len() ==> (planned(h.nodes, #[trigger] tasks[i]) matches Some(p)
                ==> h.has_edge(p)),
    ensures
        ingest_all(h, tasks, strictness).0 == h,
    decreases tasks.len(),
{
    if tasks.len() > 0 {
        let rest = tasks.drop_first();
        assert(planned(h.nodes, tasks[0]) matches Some(p) ==> h.has_edge(p));
        lemma_link_effect(h, tasks[0], strictness, arbitrary());
        lemma_ingest_unfolds(h, tasks, strictness);
        assert forall|i: int| 0 <= i < rest.len() implies (planned(h.nodes, #[trigger] rest[i])
            matches Some(p) ==> h.has_edge(p)) by {
            assert(rest[i] == tasks[i + 1]);
        }
        lemma_covered_run_changes_nothing(h, rest, strictness);
    }
}

/// A second run over the same batch changes nothing: every edge that it
/// would write is there already.
pub proof fn lemma_ingest_again_changes_nothing(
    g: GraphView,
    tasks: Seq<TaskView>,
    first: Strictness,
    second: Strictness,
)
    ensures
        ingest_all(ingest_all(g, tasks, first).0, tasks, second).0 == ingest_all(g, tasks, first).0,
{
    let h = ingest_all(g, tasks, first).0;
    lemma_ingest_keeps(g, tasks, first, arbitrary());
    assert forall|i: int| 0 <= i < tasks.len() implies (planned(h.nodes, #[trigger] tasks[i])
        matches Some(p) ==> h.has_edge(p)) by {
        if planned(g.nodes, tasks[i]) is Some {
            lemma_resolved_tasks_are_linked(g, tasks, first, i);
        }
    }
    lemma_covered_run_changes_nothing(h, tasks, second);
}

/// A run leaves an edge that was there as often as it was, and one that
/// was not there at most once.
pub proof fn lemma_ingest_adds_at_most_one(
    g: GraphView,
    tasks: Seq<TaskView>,
    strictness: Strictness,
    t: Triple,
)
    ensures
        count(g.edges, t) > 0 ==> count(ingest_all(g, tasks, strictness).0.edges, t) == count(
            g.edges,
            t,
        ),
        count(g.edges, t) == 0 ==> count(ingest_all(g, tasks, strictness).0.edges, t) <= 1,
    decreases tasks.len(),
{
    if tasks.len() > 0 {
        if let Some(p) = planned(g.nodes, tasks[0]) {
            lemma_count_push(g.edges, p, t);
            lemma_count_push(g.edges, p, p);
        }
        lemma_ingest_unfolds(g, tasks, strictness);
        lemma_ingest_adds_at_most_one(
            link(g, tasks[0], strictness).0,
            tasks.drop_first(),
            strictness,
            t,
        );
    }
}

/// Exactly once. After a run, and after any number of further runs of the
/// same batch, the graph holds the edge of every task that resolves exactly
/// once, where it held it at most once before.
pub proof fn lemma_edge_exists_once(
    g: GraphView,
    tasks: Seq<TaskView>,
    first: Strictness,
    second: Strictness,
    j: int,
)
    requires
        0 <= j < tasks.len(),
        planned(g.nodes, tasks[j]) matches Some(p) && count(g.edges, p) <= 1,
    ensures
        count(ingest_all(g, tasks, first).0.edges, planned(g.nodes, tasks[j])->Some_0) == 1,
        count(
            ingest_all(ingest_all(g, tasks, first).0, tasks, second).0.edges,
            planned(g.nodes, tasks[j])->Some_0,
        ) == 1,
{
    let p = planned(g.nodes, tasks[j])->Some_0;
    lemma_resolved_tasks_are_linked(g, tasks, first, j);
    lemma_ingest_adds_at_most_one(g, tasks, first, p);
    lemma_ingest_again_changes_nothing(g, tasks, first, second);
}

/// A run keeps a graph free of double edges.
pub proof fn lemma_ingest_keeps_single_edged(
    g: GraphView,
    tasks: Seq<TaskView>,
    strictness: Strictness,
)
    requires
        g.single_edged(),
    ensures
        ingest_all(g, tasks, strictness).0.single_edged(),
{
    let after = ingest_all(g, tasks, strictness).0;
    assert forall|t: Triple| #[trigger] count(after.edges, t) <= 1 by {
        lemma_ingest_adds_at_most_one(g, tasks, strictness, t);
        assert(count(g.edges, t) <= 1);
    }
}

/// A whole run with the same analyzer output, repeated, changes nothing
/// more: the second run leaves the graph as the first one left it.
pub proof fn lemma_run_again_changes_nothing(
    g: GraphView,
    output: Option<Seq<char>>,
    first: Strictness,
    second: Strictness,
)
    ensures
        run_on(run_on(g, output, first).0, output, second).0 == run_on(g, output, first).0,
{
    if let Some(text) = output {
        if let Ok(c) = decode_text(text) {
            lemma_ingest_again_changes_nothing(g, tasks_of(c), first, second);
        }
    }
}

} // verus!
