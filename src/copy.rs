//! The copy job: the selected entries of one side, replayed from their root
//! onto a target root. The job names each copy; the caller performs it and
//! records its outcome, one slot per copy, in order.
use vstd::prelude::*;
use crate::entry::{EntryModel, FileEntry, PathModel, clone_path};
use crate::entry_set::models;
use crate::paths::{join, lies_under, relative_to, strip_prefix};

verus! {

/// One copy: from `source` to `target`.
#[derive(Debug)]
pub struct CopyStep {
    pub source: Vec<String>,
    pub target: Vec<String>,
}

pub struct StepModel {
    pub source: PathModel,
    pub target: PathModel,
}

impl View for CopyStep {
    type V = StepModel;

    open spec fn view(&self) -> StepModel {
        StepModel { source: self.source.deep_view(), target: self.target.deep_view() }
    }
}

/// The entries of `s` that the caller marked for copying, in order.
pub open spec fn selected(s: Seq<EntryModel>) -> Seq<EntryModel> {
    s.filter(|e: EntryModel| e.should_copy)
}

/// Every entry marked for copying lies under `root`.
pub open spec fn selected_under(s: Seq<EntryModel>, root: PathModel) -> bool {
    forall|i: int| 0 <= i < s.len() && #[trigger] s[i].should_copy ==> lies_under(s[i].path, root)
}

/// The copy of `e`: its path relative to `src` is placed under `tgt`.
pub open spec fn step_for(e: EntryModel, src: PathModel, tgt: PathModel) -> StepModel {
    StepModel { source: e.path, target: tgt + relative_to(e.path, src) }
}

/// The copies for the selected entries of `s`, in order.
pub open spec fn planned(s: Seq<EntryModel>, src: PathModel, tgt: PathModel) -> Seq<StepModel> {
    selected(s).map_values(|e: EntryModel| step_for(e, src, tgt))
}

pub struct CopyJobModel<E> {
    pub steps: Seq<StepModel>,
    pub outcomes: Seq<Option<E>>,
}

/// A batch of copies and the outcomes recorded so far: `None` for a copy
/// that succeeded, the error otherwise.
pub struct CopyJob<E> {
    steps: Vec<CopyStep>,
    outcomes: Vec<Option<E>>,
}

impl<E> View for CopyJob<E> {
    type V = CopyJobModel<E>;

    closed spec fn view(&self) -> CopyJobModel<E> {
        CopyJobModel { steps: self.steps@.map_values(|s: CopyStep| s@), outcomes: self.outcomes@ }
    }
}

/// Whether every entry of `entries` marked for copying lies under
/// `source_root`, as a job over them requires.
pub fn sources_under_root(entries: &Vec<FileEntry>, source_root: &Vec<String>) -> (r: bool)
    ensures
        r == selected_under(models(entries@), source_root.deep_view()),
{
    let mut i: usize = 0;
    while i < entries.len()
        invariant
            i <= entries.len(),
            forall|j: int|
                0 <= j < i && #[trigger] models(entries@)[j].should_copy ==> lies_under(
                    models(entries@)[j].path,
                    source_root.deep_view(),
                ),
        decreases entries.len() - i,
    {
        assert(models(entries@)[i as int] == entries@[i as int]@);
        if entries[i].should_copy {
            if strip_prefix(&entries[i].path, source_root).is_none() {
                assert(models(entries@)[i as int].should_copy);
                return false;
            }
        }
        i = i + 1;
    }
    true
}

impl<E> CopyJob<E> {
    /// No more outcomes than copies.
    pub open spec fn wf(&self) -> bool {
        self@.outcomes.len() <= self@.steps.len()
    }

    /// Whether every copy has its outcome.
    pub open spec fn finished_spec(&self) -> bool {
        self@.outcomes.len() == self@.steps.len()
    }

    /// The job for the entries of `entries` marked for copying, whose paths
    /// lie under `source_root`, onto `target_root`.
    pub fn new(entries: &Vec<FileEntry>, source_root: &Vec<String>, target_root: &Vec<String>) -> (r:
        CopyJob<E>)
        requires
            selected_under(models(entries@), source_root.deep_view()),
        ensures
            r.wf(),
            r@.steps == planned(models(entries@), source_root.deep_view(), target_root.deep_view()),
            r@.outcomes.len() == 0,
    {
        let ghost em = models(entries@);
        let ghost src = source_root.deep_view();
        let ghost tgt = target_root.deep_view();
        let ghost pred = |e: EntryModel| e.should_copy;
        let mut steps: Vec<CopyStep> = Vec::new();
        let mut i: usize = 0;
        proof {
            reveal(Seq::filter);
            assert(em.take(0) =~= Seq::<EntryModel>::empty());
        }
        while i < entries.len()
            invariant
                i <= entries.len(),
                em == models(entries@),
                src == source_root.deep_view(),
                tgt == target_root.deep_view(),
                pred == (|e: EntryModel| e.should_copy),
                selected_under(em, src),
                steps@.map_values(|s: CopyStep| s@) == em.take(i as int).filter(pred).map_values(
                    |e: EntryModel| step_for(e, src, tgt),
                ),
            decreases entries.len() - i,
        {
            let ghost before = em.take(i as int).filter(pred);
            let ghost sv = steps@.map_values(|s: CopyStep| s@);
            proof {
                reveal(Seq::filter);
                assert(em.take(i as int + 1).drop_last() =~= em.take(i as int));
                assert(em.take(i as int + 1).last() == entries@[i as int]@);
                assert(em[i as int] == entries@[i as int]@);
            }
            if entries[i].should_copy {
                assert(em[i as int].should_copy);
                let rel = strip_prefix(&entries[i].path, source_root).unwrap();
                let step = CopyStep { source: clone_path(&entries[i].path), target: join(target_root, &rel) };
                assert(step@ == step_for(em[i as int], src, tgt));
                steps.push(step);
                assert(em.take(i as int + 1).filter(pred) == before.push(em[i as int]));
                assert(steps@.map_values(|s: CopyStep| s@) =~= sv.push(step_for(em[i as int], src, tgt)));
                assert(before.push(em[i as int]).map_values(|e: EntryModel| step_for(e, src, tgt))
                    =~= before.map_values(|e: EntryModel| step_for(e, src, tgt)).push(
                    step_for(em[i as int], src, tgt),
                ));
            } else {
                assert(em.take(i as int + 1).filter(pred) == before);
            }
            i = i + 1;
        }
        assert(em.take(entries.len() as int) =~= em);
        CopyJob { steps, outcomes: Vec::new() }
    }

    /// The number of copies in the job.
    pub fn len(&self) -> (r: usize)
        ensures
            r == self@.steps.len(),
    {
        self.steps.len()
    }

    /// Whether every copy has its outcome.
    pub fn is_finished(&self) -> (r: bool)
        requires
            self.wf(),
        ensures
            r == self.finished_spec(),
    {
        self.outcomes.len() == self.steps.len()
    }

    /// The copy to perform next, or `None` when the job is finished.
    pub fn next_step(&self) -> (r: Option<CopyStep>)
        requires
            self.wf(),
        ensures
            r.is_none() == self.finished_spec(),
            r.is_some() ==> r.unwrap()@ == self@.steps[self@.outcomes.len() as int],
    {
        let n = self.outcomes.len();
        if n < self.steps.len() {
            let s = &self.steps[n];
            Some(CopyStep { source: clone_path(&s.source), target: clone_path(&s.target) })
        } else {
            None
        }
    }

    /// Records the outcome of the copy that [`CopyJob::next_step`] named.
    pub fn record(&mut self, outcome: Option<E>)
        requires
            old(self).wf(),
            !old(self).finished_spec(),
        ensures
            final(self).wf(),
            final(self)@.steps == old(self)@.steps,
            final(self)@.outcomes == old(self)@.outcomes.push(outcome),
    {
        self.outcomes.push(outcome);
    }

    /// The outcomes, one per copy recorded, in the order of the copies.
    pub fn into_outcomes(self) -> (r: Vec<Option<E>>)
        ensures
            r@ == self@.outcomes,
    {
        self.outcomes
    }
}

/// When every entry is marked for copying, all of them are selected.
pub proof fn lemma_all_selected(s: Seq<EntryModel>)
    requires
        forall|i: int| 0 <= i < s.len() ==> #[trigger] s[i].should_copy,
    ensures
        selected(s) == s,
    decreases s.len(),
{
    reveal(Seq::filter);
    if s.len() > 0 {
        assert forall|i: int| 0 <= i < s.drop_last().len() implies #[trigger] s.drop_last()[i].should_copy by {
            assert(s[i].should_copy);
        }
        lemma_all_selected(s.drop_last());
        assert(s.last().should_copy);
        assert(s.drop_last().push(s.last()) =~= s);
    }
}

/// A finished job over entries that are all marked for copying has exactly
/// one outcome per entry, and its copies follow the entries in order.
pub proof fn lemma_one_outcome_per_entry<E>(
    entries: Seq<EntryModel>,
    src: PathModel,
    tgt: PathModel,
    job: CopyJobModel<E>,
)
    requires
        forall|i: int| 0 <= i < entries.len() ==> #[trigger] entries[i].should_copy,
        job.steps == planned(entries, src, tgt),
        job.outcomes.len() == job.steps.len(),
    ensures
        job.outcomes.len() == entries.len(),
        forall|i: int| 0 <= i < entries.len() ==> #[trigger] job.steps[i] == step_for(entries[i], src, tgt),
{
    lemma_all_selected(entries);
}

} // verus!
