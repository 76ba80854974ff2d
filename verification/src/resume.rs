//! Resume tracker state: the set of batch indices whose scans have fully
//! completed and been merged. Indices are only ever added during a run;
//! persistence of the state is the caller's concern. Membership is answered
//! by a hash set (O(1) average); an ordered duplicate-free list is kept
//! beside it for deterministic persistence.

use std::collections::HashSet;
use vstd::prelude::*;

verus! {

broadcast use vstd::std_specs::hash::group_hash_axioms;

/// No value occurs twice in `s`.
pub open spec fn no_dups(s: Seq<usize>) -> bool {
    forall|i: int, j: int| 0 <= i < j < s.len() ==> s[i] != s[j]
}

proof fn lemma_push_contains(s: Seq<usize>, x: usize)
    ensures
        forall|j: usize| s.push(x).contains(j) <==> (s.contains(j) || j == x),
{
    assert forall|j: usize| s.push(x).contains(j) implies (s.contains(j) || j == x) by {
        let w = choose|w: int| 0 <= w < s.push(x).len() && s.push(x)[w] == j;
        if w < s.len() {
            assert(s[w] == j);
        }
    };
    assert forall|j: usize| (s.contains(j) || j == x) implies s.push(x).contains(j) by {
        if s.contains(j) {
            let w = choose|w: int| 0 <= w < s.len() && s[w] == j;
            assert(s.push(x)[w] == j);
        } else {
            assert(s.push(x)[s.len() as int] == x);
        }
    };
}

/// The set of completed batch indices.
pub struct ResumeState {
    completed: Vec<usize>,
    index: HashSet<usize>,
}

impl ResumeState {
    /// Well-formedness: each completed index is recorded once, and the hash
    /// set answers membership for exactly the recorded indices.
    pub closed spec fn wf(self) -> bool {
        &&& no_dups(self.completed@)
        &&& forall|i: usize| self.index@.contains(i) <==> self.completed@.contains(i)
    }

    /// Whether batch `i` is recorded as completed.
    pub closed spec fn spec_contains(self, i: usize) -> bool {
        self.completed@.contains(i)
    }

    /// Fresh state: nothing completed.
    pub fn new() -> (r: Self)
        ensures
            r.wf(),
            forall|i: usize| !r.spec_contains(i),
    {
        ResumeState { completed: Vec::new(), index: HashSet::new() }
    }

    /// State restored from a persisted list of indices (duplicates, if any,
    /// are collapsed).
    pub fn from_indices(v: &Vec<usize>) -> (r: Self)
        ensures
            r.wf(),
            forall|i: usize| r.spec_contains(i) <==> v@.contains(i),
    {
        let mut r = ResumeState::new();
        let mut k: usize = 0;
        while k < v.len()
            invariant
                k <= v.len(),
                r.wf(),
                forall|i: usize| r.spec_contains(i) <==> v@.take(k as int).contains(i),
            decreases v.len() - k,
        {
            let ghost pre = v@.take(k as int);
            r.mark_completed(v[k]);
            proof {
                assert(v@.take(k + 1) =~= pre.push(v@[k as int]));
                lemma_push_contains(pre, v@[k as int]);
            }
            k += 1;
        }
        proof {
            assert(v@.take(v@.len() as int) =~= v@);
        }
        r
    }

    /// Whether batch `i` has already completed; a hash lookup, O(1) average.
    pub fn contains(&self, i: usize) -> (b: bool)
        requires
            self.wf(),
        ensures
            b == self.spec_contains(i),
    {
        self.index.contains(&i)
    }

    /// Records batch `i` as completed. The set only grows, and by `i` alone.
    pub fn mark_completed(&mut self, i: usize)
        requires
            old(self).wf(),
        ensures
            final(self).wf(),
            forall|j: usize|
                final(self).spec_contains(j) <==> (old(self).spec_contains(j) || j == i),
    {
        if !self.contains(i) {
            let ghost pre = self.completed@;
            self.completed.push(i);
            self.index.insert(i);
            proof {
                lemma_push_contains(pre, i);
                assert(forall|w: int| 0 <= w < pre.len() ==> pre[w] != i);
            }
        }
    }

    /// The completed indices, for persistence; each exactly once.
    pub fn to_indices(&self) -> (r: Vec<usize>)
        requires
            self.wf(),
        ensures
            no_dups(r@),
            forall|i: usize| r@.contains(i) <==> self.spec_contains(i),
    {
        let mut r: Vec<usize> = Vec::new();
        let mut k: usize = 0;
        while k < self.completed.len()
            invariant
                k <= self.completed.len(),
                r@ == self.completed@.take(k as int),
            decreases self.completed.len() - k,
        {
            r.push(self.completed[k]);
            proof {
                assert(r@ =~= self.completed@.take(k + 1));
            }
            k += 1;
        }
        proof {
            assert(r@ =~= self.completed@);
        }
        r
    }
}

} // verus!
