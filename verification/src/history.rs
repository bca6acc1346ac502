//! The commit history model: an append-only directed acyclic graph of
//! commits, each recording its parents and the files it touched. Reachability
//! over this graph is what distinguishes an up-to-date repository from a
//! fast-forwardable or a diverged one.

use vstd::prelude::*;

verus! {

/// One commit: the indices of its parents (always earlier commits) and the
/// paths it touched.
pub struct Commit {
    pub parents: Vec<usize>,
    pub files: Vec<String>,
}

/// Whether every parent of `c` comes before position `i`.
pub open spec fn commit_wf(c: Commit, i: int) -> bool {
    forall|k: int| 0 <= k < c.parents@.len() ==> (c.parents@[k] as int) < i
}

/// Whether commit `b` is reachable from commit `a` by parent edges (every
/// commit reaches itself).
pub open spec fn reaches(cs: Seq<Commit>, a: int, b: int) -> bool
    decreases a,
{
    a == b || (0 <= a < cs.len() && exists|k: int|
        0 <= k < cs[a].parents@.len() && (cs[a].parents@[k] as int) < a && reaches(
            cs,
            cs[a].parents@[k] as int,
            b,
        ))
}

/// Appending a commit does not change reachability among existing commits.
pub proof fn lemma_reaches_push(cs: Seq<Commit>, c: Commit, a: int, b: int)
    requires
        0 <= a < cs.len(),
    ensures
        reaches(cs.push(c), a, b) == reaches(cs, a, b),
    decreases a,
{
    let ds = cs.push(c);
    assert(ds[a] == cs[a]);
    if reaches(ds, a, b) && a != b {
        let k = choose|k: int|
            0 <= k < ds[a].parents@.len() && (ds[a].parents@[k] as int) < a && reaches(
                ds,
                ds[a].parents@[k] as int,
                b,
            );
        lemma_reaches_push(cs, c, ds[a].parents@[k] as int, b);
        assert(reaches(cs, a, b));
    }
    if reaches(cs, a, b) && a != b {
        let k = choose|k: int|
            0 <= k < cs[a].parents@.len() && (cs[a].parents@[k] as int) < a && reaches(
                cs,
                cs[a].parents@[k] as int,
                b,
            );
        lemma_reaches_push(cs, c, cs[a].parents@[k] as int, b);
        assert(reaches(ds, a, b));
    }
}

/// What a freshly appended commit reaches: itself, and whatever its parents
/// reach.
pub proof fn lemma_reaches_new_commit(cs: Seq<Commit>, c: Commit, b: int)
    requires
        commit_wf(c, cs.len() as int),
    ensures
        reaches(cs.push(c), cs.len() as int, b) == (cs.len() == b || exists|k: int|
            0 <= k < c.parents@.len() && reaches(cs, c.parents@[k] as int, b)),
{
    let ds = cs.push(c);
    let n = cs.len() as int;
    assert(ds[n] == c);
    if reaches(ds, n, b) && n != b {
        let k = choose|k: int|
            0 <= k < ds[n].parents@.len() && (ds[n].parents@[k] as int) < n && reaches(
                ds,
                ds[n].parents@[k] as int,
                b,
            );
        lemma_reaches_push(cs, c, c.parents@[k] as int, b);
    }
    if n != b && (exists|k: int| 0 <= k < c.parents@.len() && reaches(cs, c.parents@[k] as int, b)) {
        let k = choose|k: int| 0 <= k < c.parents@.len() && reaches(cs, c.parents@[k] as int, b);
        lemma_reaches_push(cs, c, c.parents@[k] as int, b);
        assert(0 <= k < ds[n].parents@.len() && (ds[n].parents@[k] as int) < n && reaches(
            ds,
            ds[n].parents@[k] as int,
            b,
        ));
    }
}

/// The count of commits below `n` that `tip` reaches and `base` does not.
pub open spec fn spec_ahead_upto(cs: Seq<Commit>, tip: int, base: int, n: int) -> nat
    decreases n,
{
    if n <= 0 {
        0
    } else {
        spec_ahead_upto(cs, tip, base, n - 1) + if reaches(cs, tip, n - 1) && !reaches(
            cs,
            base,
            n - 1,
        ) {
            1nat
        } else {
            0nat
        }
    }
}

/// The count of commits that `tip` reaches and `base` does not.
pub open spec fn spec_ahead(cs: Seq<Commit>, tip: int, base: int) -> nat {
    spec_ahead_upto(cs, tip, base, cs.len() as int)
}

/// The append-only commit graph.
pub struct History {
    pub commits: Vec<Commit>,
}

impl History {
    /// Every commit's parents come before it; this is what makes the graph
    /// acyclic.
    pub open spec fn wf(self) -> bool {
        forall|i: int| 0 <= i < self.commits@.len() ==> commit_wf(#[trigger] self.commits@[i], i)
    }

    /// A history holding a single parentless commit touching nothing.
    pub fn initial() -> (r: History)
        ensures
            r.wf(),
            r.commits@.len() == 1,
            r.commits@[0].parents@.len() == 0,
            r.commits@[0].files@.len() == 0,
    {
        let root = Commit { parents: Vec::new(), files: Vec::new() };
        let mut commits: Vec<Commit> = Vec::new();
        commits.push(root);
        History { commits }
    }

    /// Appends a commit with the given parents and touched files, returning
    /// its position.
    pub fn push_commit(&mut self, parents: Vec<usize>, files: Vec<String>) -> (idx: usize)
        requires
            old(self).wf(),
            forall|k: int|
                0 <= k < parents@.len() ==> (parents@[k] as int) < old(self).commits@.len(),
        ensures
            final(self).wf(),
            idx == old(self).commits@.len(),
            final(self).commits@ == old(self).commits@.push(
                (Commit { parents: parents, files: files }),
            ),
    {
        let idx = self.commits.len();
        self.commits.push(Commit { parents, files });
        idx
    }

    /// Whether commit `b` is an ancestor of commit `a` (or the same commit).
    pub fn is_ancestor(&self, a: usize, b: usize) -> (r: bool)
        requires
            self.wf(),
            a < self.commits@.len(),
            b < self.commits@.len(),
        ensures
            r == reaches(self.commits@, a as int, b as int),
    {
        let ghost cs = self.commits@;
        let n = self.commits.len();
        // table[j] will say whether commit j reaches b; parents come before
        // their children, so the table can be filled from the front.
        let mut table: Vec<bool> = Vec::new();
        let mut i: usize = 0;
        while i <= a
            invariant
                self.wf(),
                cs == self.commits@,
                n == cs.len(),
                a < cs.len(),
                b < cs.len(),
                i <= a + 1,
                table@.len() == i,
                forall|j: int| 0 <= j < i ==> table@[j] == reaches(cs, j, b as int),
            decreases a + 1 - i,
        {
            let c = &self.commits[i];
            let mut hit = i == b;
            let mut k: usize = 0;
            while k < c.parents.len()
                invariant
                    self.wf(),
                    cs == self.commits@,
                    i < cs.len(),
                    b < cs.len(),
                    c == cs[i as int],
                    k <= c.parents@.len(),
                    table@.len() == i,
                    forall|j: int| 0 <= j < i ==> table@[j] == reaches(cs, j, b as int),
                    hit == (i == b || exists|k2: int|
                        0 <= k2 < k && (c.parents@[k2] as int) < i && reaches(
                            cs,
                            c.parents@[k2] as int,
                            b as int,
                        )),
                decreases c.parents@.len() - k,
            {
                assert((c.parents@[k as int] as int) < i);
                let p = c.parents[k];
                if table[p] {
                    proof {
                        assert((c.parents@[k as int] as int) < i && reaches(
                            cs,
                            c.parents@[k as int] as int,
                            b as int,
                        ));
                    }
                    hit = true;
                }
                k = k + 1;
            }
            proof {
                assert(hit == reaches(cs, i as int, b as int));
            }
            table.push(hit);
            i = i + 1;
        }
        table[a]
    }

    /// The count of commits reachable from `tip` but not from `base`: how far
    /// `tip` is ahead of `base`.
    pub fn count_ahead(&self, tip: usize, base: usize) -> (r: usize)
        requires
            self.wf(),
            tip < self.commits@.len(),
            base < self.commits@.len(),
        ensures
            r == spec_ahead(self.commits@, tip as int, base as int),
    {
        let ghost cs = self.commits@;
        let mut n: usize = 0;
        let mut j: usize = 0;
        while j < self.commits.len()
            invariant
                self.wf(),
                cs == self.commits@,
                tip < cs.len(),
                base < cs.len(),
                j <= cs.len(),
                n <= j,
                n == spec_ahead_upto(cs, tip as int, base as int, j as int),
            decreases cs.len() - j,
        {
            let from_tip = self.is_ancestor(tip, j);
            let from_base = self.is_ancestor(base, j);
            if from_tip && !from_base {
                n = n + 1;
            }
            j = j + 1;
        }
        n
    }
}

} // verus!
