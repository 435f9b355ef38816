//! From candidates to link tasks.
//!
//! Pairs are linked from their start to their end. A causal or hierarchical
//! candidate is linked from the node whose content is the context, or the
//! heading, to the node that the candidate names.

use vstd::prelude::*;
use crate::candidates::{
    Candidates, CandidatesView, CausalPair, CausalPairView, HierarchicalPair, HierarchicalPairView,
    KeywordPair, KeywordPairView, SimilarPair, SimilarPairView,
};
use crate::ingest::{Endpoint, EndpointView, Task, TaskView, task_views};
use crate::reltype::{RelType, is_type_name, normalize};

verus! {

/// The relationship type that a causal phrase stands for, where it stands
/// for one.
pub open spec fn phrase_type(phrase: Seq<char>) -> Option<Seq<char>> {
    if is_type_name(normalize(phrase)) {
        Some(normalize(phrase))
    } else {
        None
    }
}

/// A similarity candidate becomes a `SIMILAR_TO` edge from start to end.
pub open spec fn similar_task(pair: SimilarPairView) -> TaskView {
    TaskView {
        source: EndpointView::Reference(pair.start_id),
        target: EndpointView::Reference(pair.end_id),
        rel_type: Some("SIMILAR_TO"@),
    }
}

/// A keyword candidate becomes a `KEYWORD_OVERLAP` edge from start to end.
pub open spec fn keyword_task(pair: KeywordPairView) -> TaskView {
    TaskView {
        source: EndpointView::Reference(pair.start_id),
        target: EndpointView::Reference(pair.end_id),
        rel_type: Some("KEYWORD_OVERLAP"@),
    }
}

/// A causal candidate becomes an edge of the type that its phrase stands
/// for, from the node with the context as content to the node it names.
pub open spec fn causal_task(pair: CausalPairView) -> TaskView {
    TaskView {
        source: EndpointView::Content(pair.context),
        target: EndpointView::Reference(pair.id),
        rel_type: phrase_type(pair.phrase),
    }
}

/// A hierarchical candidate becomes a `PART_OF` edge from the node with the
/// heading as content to the node it names.
pub open spec fn hierarchical_task(pair: HierarchicalPairView) -> TaskView {
    TaskView {
        source: EndpointView::Content(pair.heading),
        target: EndpointView::Reference(pair.id),
        rel_type: Some("PART_OF"@),
    }
}

/// The tasks of a set of candidates: similar pairs first, then keyword
/// pairs, causal pairs and hierarchical pairs, each list in its own order.
pub open spec fn tasks_of(c: CandidatesView) -> Seq<TaskView> {
    Seq::new(c.similar_pairs.len(), |i: int| similar_task(c.similar_pairs[i])) + Seq::new(
        c.keyword_pairs.len(),
        |i: int| keyword_task(c.keyword_pairs[i]),
    ) + Seq::new(c.causal_pairs.len(), |i: int| causal_task(c.causal_pairs[i])) + Seq::new(
        c.hierarchical_pairs.len(),
        |i: int| hierarchical_task(c.hierarchical_pairs[i]),
    )
}

impl SimilarPair {
    /// The task that carries this candidate out.
    pub fn task(&self) -> (t: Task)
        ensures
            t@ == similar_task(self@),
    {
        Task {
            source: Endpoint::Reference(self.start_id.clone()),
            target: Endpoint::Reference(self.end_id.clone()),
            rel_type: Some(RelType::similar_to()),
        }
    }
}

impl KeywordPair {
    /// The task that carries this candidate out.
    pub fn task(&self) -> (t: Task)
        ensures
            t@ == keyword_task(self@),
    {
        Task {
            source: Endpoint::Reference(self.start_id.clone()),
            target: Endpoint::Reference(self.end_id.clone()),
            rel_type: Some(RelType::keyword_overlap()),
        }
    }
}

impl CausalPair {
    /// The task that carries this candidate out. Where the phrase stands
    /// for no admitted type, the task has none.
    pub fn task(&self) -> (t: Task)
        ensures
            t@ == causal_task(self@),
    {
        let rel_type = match RelType::from_phrase(self.phrase.as_str()) {
            Ok(t) => Some(t),
            Err(_) => None,
        };
        Task {
            source: Endpoint::Content(self.context.clone()),
            target: Endpoint::Reference(self.id.clone()),
            rel_type,
        }
    }
}

impl HierarchicalPair {
    /// The task that carries this candidate out.
    pub fn task(&self) -> (t: Task)
        ensures
            t@ == hierarchical_task(self@),
    {
        Task {
            source: Endpoint::Content(self.heading.clone()),
            target: Endpoint::Reference(self.id.clone()),
            rel_type: Some(RelType::part_of()),
        }
    }
}

impl Candidates {
    /// The tasks that carry these candidates out, in the order of
    /// [`tasks_of`].
    pub fn tasks(&self) -> (tasks: Vec<Task>)
        ensures
            task_views(tasks@) == tasks_of(self@),
    {
        let ghost similar = Seq::new(
            self@.similar_pairs.len(),
            |i: int| similar_task(self@.similar_pairs[i]),
        );
        let ghost keyword = Seq::new(
            self@.keyword_pairs.len(),
            |i: int| keyword_task(self@.keyword_pairs[i]),
        );
        let ghost causal = Seq::new(
            self@.causal_pairs.len(),
            |i: int| causal_task(self@.causal_pairs[i]),
        );
        let ghost hierarchical = Seq::new(
            self@.hierarchical_pairs.len(),
            |i: int| hierarchical_task(self@.hierarchical_pairs[i]),
        );
        let mut tasks: Vec<Task> = Vec::new();
        assert(task_views(tasks@) =~= similar.take(0));
        for i in 0..self.similar_pairs.len()
            invariant
                similar == Seq::new(
                    self@.similar_pairs.len(),
                    |i: int| similar_task(self@.similar_pairs[i]),
                ),
                task_views(tasks@) == similar.take(i as int),
        {
            let ghost before = task_views(tasks@);
            let task = self.similar_pairs[i].task();
            assert(self@.similar_pairs[i as int] == self.similar_pairs@[i as int]@);
            assert(similar[i as int] == task@);
            tasks.push(task);
            assert(task_views(tasks@) =~= before.push(similar[i as int]));
            assert(similar.take(i + 1) =~= similar.take(i as int).push(similar[i as int]));
            assert(task_views(tasks@) =~= similar.take(i + 1));
        }
        assert(task_views(tasks@) =~= similar + keyword.take(0));
        for i in 0..self.keyword_pairs.len()
            invariant
                keyword == Seq::new(
                    self@.keyword_pairs.len(),
                    |i: int| keyword_task(self@.keyword_pairs[i]),
                ),
                task_views(tasks@) == similar + keyword.take(i as int),
        {
            let ghost before = task_views(tasks@);
            let task = self.keyword_pairs[i].task();
            assert(self@.keyword_pairs[i as int] == self.keyword_pairs@[i as int]@);
            assert(keyword[i as int] == task@);
            tasks.push(task);
            assert(task_views(tasks@) =~= before.push(keyword[i as int]));
            assert(keyword.take(i + 1) =~= keyword.take(i as int).push(keyword[i as int]));
            assert(task_views(tasks@) =~= similar + keyword.take(i + 1));
        }
        assert(task_views(tasks@) =~= similar + keyword + causal.take(0));
        for i in 0..self.causal_pairs.len()
            invariant
                causal == Seq::new(
                    self@.causal_pairs.len(),
                    |i: int| causal_task(self@.causal_pairs[i]),
                ),
                task_views(tasks@) == similar + keyword + causal.take(i as int),
        {
            let ghost before = task_views(tasks@);
            let task = self.causal_pairs[i].task();
            assert(self@.causal_pairs[i as int] == self.causal_pairs@[i as int]@);
            assert(causal[i as int] == task@);
            tasks.push(task);
            assert(task_views(tasks@) =~= before.push(causal[i as int]));
            assert(causal.take(i + 1) =~= causal.take(i as int).push(causal[i as int]));
            assert(task_views(tasks@) =~= similar + keyword + causal.take(i + 1));
        }
        assert(task_views(tasks@) =~= similar + keyword + causal + hierarchical.take(0));
        for i in 0..self.hierarchical_pairs.len()
            invariant
                hierarchical == Seq::new(
                    self@.hierarchical_pairs.len(),
                    |i: int| hierarchical_task(self@.hierarchical_pairs[i]),
                ),
                task_views(tasks@) == similar + keyword + causal + hierarchical.take(i as int),
        {
            let ghost before = task_views(tasks@);
            let task = self.hierarchical_pairs[i].task();
            assert(self@.hierarchical_pairs[i as int] == self.hierarchical_pairs@[i as int]@);
            assert(hierarchical[i as int] == task@);
            tasks.push(task);
            assert(task_views(tasks@) =~= before.push(hierarchical[i as int]));
            assert(hierarchical.take(i + 1) =~= hierarchical.take(i as int).push(hierarchical[i as int]));
            assert(task_views(tasks@) =~= similar + keyword + causal + hierarchical.take(i + 1));
        }
        assert(task_views(tasks@) =~= similar + keyword + causal + hierarchical);
        tasks
    }
}

} // verus!
