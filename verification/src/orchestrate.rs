//! Scan orchestrator: decides which batches still need scanning, accumulates
//! normalized results, and records completion. The caller drives the loop,
//! performs the external invocations, and persists the resume state after
//! each completed batch and before any operator interaction.

use vstd::prelude::*;

use crate::resume::ResumeState;
use crate::scan::{ScanResult, SpecScanResult, results_view};

verus! {

/// The batch indices below `total` not recorded complete, in increasing
/// order.
pub open spec fn spec_plan(total: int, resume: ResumeState) -> Seq<usize>
    decreases total,
{
    if total <= 0 {
        Seq::empty()
    } else {
        spec_plan(total - 1, resume) + (if resume.spec_contains((total - 1) as usize) {
            Seq::<usize>::empty()
        } else {
            seq![(total - 1) as usize]
        })
    }
}

/// Law: the plan holds exactly the unfinished batch indices, each once, in
/// increasing order — completed batches are never re-scanned.
pub proof fn lemma_plan_correct(total: int, resume: ResumeState)
    requires
        0 <= total <= usize::MAX,
    ensures
        forall|b: usize| spec_plan(total, resume).contains(b) <==> (b < total
            && !resume.spec_contains(b)),
        forall|i: int, j: int|
            0 <= i < j < spec_plan(total, resume).len() ==> spec_plan(total, resume)[i]
                < spec_plan(total, resume)[j],
        forall|i: int|
            0 <= i < spec_plan(total, resume).len() ==> #[trigger] spec_plan(total, resume)[i]
                < total,
    decreases total,
{
    if total > 0 {
        lemma_plan_correct(total - 1, resume);
        let prev = spec_plan(total - 1, resume);
        let cur = spec_plan(total, resume);
        assert forall|b: usize| cur.contains(b) implies (b < total && !resume.spec_contains(b)) by {
            let w = choose|w: int| 0 <= w < cur.len() && cur[w] == b;
            if w < prev.len() {
                assert(prev[w] == b);
                assert(prev.contains(b));
            }
        };
        assert forall|b: usize| (b < total && !resume.spec_contains(b)) implies cur.contains(
            b,
        ) by {
            if b < total - 1 {
                assert(prev.contains(b));
                let w = choose|w: int| 0 <= w < prev.len() && prev[w] == b;
                assert(cur[w] == b);
            } else {
                assert(cur[cur.len() - 1] == b);
            }
        };
    }
}

/// Law (resume idempotence): when exactly the batches `0..=k` are recorded
/// complete — the state left by a run interrupted right after batch `k`'s
/// checkpoint — a rerun plans exactly the batches `k+1..total`, in order.
pub proof fn lemma_resume_idempotent(total: int, resume: ResumeState, k: usize)
    requires
        0 <= k < total <= usize::MAX,
        forall|b: usize| resume.spec_contains(b) <==> b <= k,
    ensures
        spec_plan(total, resume) == Seq::new(
            (total - k - 1) as nat,
            |j: int| (k + 1 + j) as usize,
        ),
    decreases total,
{
    if total == k + 1 {
        lemma_plan_all_done(total, resume);
        assert(spec_plan(total, resume) =~= Seq::new(0, |j: int| (k + 1 + j) as usize));
    } else {
        lemma_resume_idempotent(total - 1, resume, k);
        assert(spec_plan(total, resume) =~= Seq::new(
            (total - k - 1) as nat,
            |j: int| (k + 1 + j) as usize,
        ));
    }
}

/// When every batch below `total` is recorded complete, nothing is planned.
pub proof fn lemma_plan_all_done(total: int, resume: ResumeState)
    requires
        total <= usize::MAX,
        forall|b: usize| b < total ==> resume.spec_contains(b),
    ensures
        spec_plan(total, resume) == Seq::<usize>::empty(),
    decreases total,
{
    if total > 0 {
        lemma_plan_all_done(total - 1, resume);
        assert(spec_plan(total, resume) =~= Seq::<usize>::empty());
    }
}

/// Drives one run over `total` batches: accumulates results and records
/// completion; the resume set only grows until the run is complete.
pub struct Orchestrator {
    total: usize,
    resume: ResumeState,
    results: Vec<ScanResult>,
}

impl Orchestrator {
    pub closed spec fn wf(self) -> bool {
        self.resume.wf()
    }

    pub closed spec fn spec_total(self) -> usize {
        self.total
    }

    /// Whether batch `i` is recorded complete.
    pub closed spec fn spec_done(self, i: usize) -> bool {
        self.resume.spec_contains(i)
    }

    /// The results accumulated so far, in order of arrival.
    pub closed spec fn spec_results(self) -> Seq<SpecScanResult> {
        results_view(self.results@)
    }

    /// Starts a run over `total` batches from a loaded (possibly fresh)
    /// resume state, with no results accumulated yet.
    pub fn new(total: usize, resume: ResumeState) -> (r: Self)
        requires
            resume.wf(),
        ensures
            r.wf(),
            r.spec_total() == total,
            forall|i: usize| r.spec_done(i) <==> resume.spec_contains(i),
            r.spec_results() == Seq::<SpecScanResult>::empty(),
    {
        let r = Orchestrator { total, resume, results: Vec::new() };
        proof {
            assert(results_view(r.results@) =~= Seq::<SpecScanResult>::empty());
        }
        r
    }

    /// The batch indices this run still has to scan, in increasing order:
    /// exactly those below the total and not recorded complete.
    pub fn pending_batches(&self) -> (r: Vec<usize>)
        requires
            self.wf(),
        ensures
            r@ == spec_plan(self.spec_total() as int, self.resume_state()),
    {
        let mut r: Vec<usize> = Vec::new();
        let mut i: usize = 0;
        while i < self.total
            invariant
                self.resume.wf(),
                i <= self.total,
                r@ == spec_plan(i as int, self.resume),
            decreases self.total - i,
        {
            if !self.resume.contains(i) {
                r.push(i);
                proof {
                    assert(r@ =~= spec_plan(i + 1, self.resume));
                }
            } else {
                proof {
                    assert(r@ =~= spec_plan(i + 1, self.resume));
                }
            }
            i += 1;
        }
        r
    }

    /// The resume state, for contracts and for persistence decisions.
    pub closed spec fn resume_state(self) -> ResumeState {
        self.resume
    }

    /// Whether batch `i` must be skipped (already complete).
    pub fn batch_done(&self, i: usize) -> (b: bool)
        requires
            self.wf(),
        ensures
            b == self.spec_done(i),
    {
        self.resume.contains(i)
    }

    /// Merges the normalized results of batch `i`'s scans and records the
    /// batch complete. The accumulated results grow by exactly the new ones,
    /// in order, and the resume set grows by exactly `i`.
    pub fn complete_batch(&mut self, i: usize, new_results: Vec<ScanResult>)
        requires
            old(self).wf(),
        ensures
            final(self).wf(),
            final(self).spec_total() == old(self).spec_total(),
            final(self).spec_results() == old(self).spec_results() + results_view(
                new_results@,
            ),
            forall|j: usize| final(self).spec_done(j) <==> (old(self).spec_done(j) || j == i),
    {
        let ghost r0 = self.results@;
        let ghost n0 = new_results@;
        let mut new_results = new_results;
        self.results.append(&mut new_results);
        self.resume.mark_completed(i);
        proof {
            assert(results_view(self.results@) =~= results_view(r0) + results_view(n0));
        }
    }

    /// The completed batch indices, for checkpoint persistence.
    pub fn checkpoint_indices(&self) -> (r: Vec<usize>)
        requires
            self.wf(),
        ensures
            forall|i: usize| r@.contains(i) <==> self.spec_done(i),
    {
        self.resume.to_indices()
    }

    /// Whether every batch of the run is recorded complete (the checkpoint
    /// may then be cleared and reports generated).
    pub fn finished(&self) -> (b: bool)
        requires
            self.wf(),
        ensures
            b == (forall|i: usize| i < self.spec_total() ==> self.spec_done(i)),
    {
        let mut i: usize = 0;
        while i < self.total
            invariant
                self.resume.wf(),
                i <= self.total,
                forall|j: usize| j < i ==> self.spec_done(j),
            decreases self.total - i,
        {
            if !self.resume.contains(i) {
                proof {
                    assert(i < self.spec_total() && !self.spec_done(i));
                }
                return false;
            }
            i += 1;
        }
        true
    }

    /// The accumulated results, handed to report generation.
    pub fn results(&self) -> (r: &Vec<ScanResult>)
        ensures
            results_view(r@) == self.spec_results(),
    {
        &self.results
    }
}

} // verus!
