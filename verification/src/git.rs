//! The reconciler: one local branch kept in step with one remote branch.
//!
//! `GitSync` models the repository as a commit graph together with the local
//! head, the last fetched remote tip, the backup branches, and the set of
//! uncommitted changed paths. `pull` converges the local branch on the remote
//! tip — a no-op when already up to date, a fast-forward when possible, and
//! otherwise a hard reset behind a freshly created backup branch. `push`
//! commits whatever is uncommitted and then attempts to advance the remote.
//! The surrounding process mirrors each transition onto the real repository.

use crate::errors::GitHubSyncError;
use crate::history::{commit_wf, lemma_reaches_new_commit, reaches, spec_ahead, History};
use crate::text::seq_has_str;
use vstd::prelude::*;

verus! {

/// The fixed message used for automatically created commits.
pub fn auto_commit_message() -> (r: String)
    ensures
        r@ == "GitHub Sync: Auto-commit changes"@,
{
    String::from_str("GitHub Sync: Auto-commit changes")
}

/// The latest timestamp the backup-name formatter accepts: the last second
/// of the year 9999.
pub const MAX_BACKUP_STAMP: i64 = 253_402_300_799;

/// What chrono renders for a timestamp under `"%Y%m%d_%H%M%S"` in UTC.
pub uninterp spec fn timestamp_text(secs: int) -> Seq<char>;

/// The name a backup branch created at time `secs` carries.
pub open spec fn backup_name_text(secs: int) -> Seq<char> {
    "backup_"@ + timestamp_text(secs)
}

/// Relies on chrono's `DateTime::<Utc>::from_timestamp` and its `format`
/// with `"%Y%m%d_%H%M%S"`: in UTC the rendering is a function of the seconds
/// alone, and for the years 1970 through 9999 it is fifteen characters long.
#[verifier::external_body]
fn format_utc_stamp(secs: i64) -> (r: String)
    requires
        0 <= secs <= MAX_BACKUP_STAMP,
    ensures
        r@ == timestamp_text(secs as int),
        r@.len() == 15,
{
    let stamp = chrono::DateTime::from_timestamp(secs, 0).expect("timestamp in range");
    stamp.format("%Y%m%d_%H%M%S").to_string()
}

/// The name of the backup branch a pull at time `secs` creates: `backup_`
/// followed by the timestamp, which makes names from different seconds
/// distinct.
pub fn make_backup_name(secs: i64) -> (r: String)
    requires
        0 <= secs <= MAX_BACKUP_STAMP,
    ensures
        r@ == backup_name_text(secs as int),
{
    let mut r = String::from_str("backup_");
    r.append(format_utc_stamp(secs).as_str());
    r
}

/// A named branch pointer.
pub struct Branch {
    pub name: String,
    pub target: usize,
}

/// How a fetched remote tip relates to the local head.
#[derive(Clone, Copy, PartialEq, Eq, Structural, Debug)]
pub enum MergeAnalysis {
    /// The local head already contains the remote tip.
    UpToDate,
    /// The remote tip is a strict descendant of the local head.
    FastForward,
    /// The histories have diverged.
    Diverged,
}

/// What a pull did.
#[derive(Clone, Copy, PartialEq, Eq, Structural, Debug)]
pub enum PullOutcome {
    /// Nothing to do: the local head already contained the remote tip.
    UpToDate,
    /// The local head moved forward to the remote tip.
    FastForwarded,
    /// A backup branch was created and the local branch was hard-reset to
    /// the remote tip.
    Reset,
}

/// What a push did before attempting the transfer.
#[derive(Clone, Copy, PartialEq, Eq, Structural, Debug)]
pub struct PushReport {
    /// Whether uncommitted changes were turned into a commit.
    pub committed: bool,
}

/// What a full sync cycle did.
#[derive(Clone, Copy, PartialEq, Eq, Structural, Debug)]
pub struct SyncReport {
    pub pull: PullOutcome,
    /// Whether the push step created a commit.
    pub committed: bool,
}

/// The modelled repository: commit graph, local head, last fetched remote
/// tip, the working branch's name and remote, backup branches, and the
/// uncommitted changed paths.
pub struct GitSync {
    pub history: History,
    pub head: usize,
    pub remote_tip: usize,
    pub branch: String,
    pub remote_url: String,
    pub branches: Vec<Branch>,
    pub dirty: Vec<String>,
}

impl GitSync {
    /// Head and tips point into the history, and branch names are distinct
    /// and never shadow the working branch.
    pub open spec fn wf(self) -> bool {
        &&& self.history.wf()
        &&& (self.head as int) < self.history.commits@.len()
        &&& (self.remote_tip as int) < self.history.commits@.len()
        &&& forall|i: int|
            0 <= i < self.branches@.len() ==> ((#[trigger] self.branches@[i]).target as int)
                < self.history.commits@.len()
        &&& forall|i: int, j: int|
            0 <= i < j < self.branches@.len() ==> (#[trigger] self.branches@[i]).name@ != (
            #[trigger] self.branches@[j]).name@
        &&& forall|i: int|
            0 <= i < self.branches@.len() ==> (#[trigger] self.branches@[i]).name@ != self.branch@
    }

    /// Whether a backup branch named `name` exists.
    pub open spec fn has_backup(self, name: Seq<char>) -> bool {
        exists|i: int| 0 <= i < self.branches@.len() && self.branches@[i].name@ == name
    }

    /// Whether the local head already contains the remote tip.
    pub open spec fn up_to_date(self) -> bool {
        reaches(self.history.commits@, self.head as int, self.remote_tip as int)
    }

    /// Whether the remote tip strictly descends from the local head.
    pub open spec fn fast_forwardable(self) -> bool {
        !self.up_to_date() && reaches(
            self.history.commits@,
            self.remote_tip as int,
            self.head as int,
        )
    }

    /// Whether local and remote history have diverged.
    pub open spec fn diverged(self) -> bool {
        !self.up_to_date() && !self.fast_forwardable()
    }

    /// A fresh repository on `branch`: a single initial commit, with the
    /// remote assumed to be at the same commit.
    pub fn new(remote_url: String, branch: String) -> (r: GitSync)
        ensures
            r.wf(),
            r.history.commits@.len() == 1,
            r.head == 0,
            r.remote_tip == 0,
            r.branches@.len() == 0,
            r.dirty@.len() == 0,
            r.branch == branch,
            r.remote_url == remote_url,
    {
        GitSync {
            history: History::initial(),
            head: 0,
            remote_tip: 0,
            branch,
            remote_url,
            branches: Vec::new(),
            dirty: Vec::new(),
        }
    }

    /// Classifies the fetched remote tip against the local head, the way the
    /// merge analysis of a pull does.
    pub fn analyze(&self) -> (a: MergeAnalysis)
        requires
            self.wf(),
        ensures
            a == MergeAnalysis::UpToDate <==> self.up_to_date(),
            a == MergeAnalysis::FastForward <==> self.fast_forwardable(),
            a == MergeAnalysis::Diverged <==> self.diverged(),
    {
        if self.history.is_ancestor(self.head, self.remote_tip) {
            MergeAnalysis::UpToDate
        } else if self.history.is_ancestor(self.remote_tip, self.head) {
            MergeAnalysis::FastForward
        } else {
            MergeAnalysis::Diverged
        }
    }

    /// Whether `name` is taken, by the working branch or by a backup branch.
    pub fn has_branch(&self, name: &String) -> (r: bool)
        ensures
            r == (self.has_backup(name@) || name@ == self.branch@),
    {
        if self.branch.eq(name) {
            return true;
        }
        let mut i: usize = 0;
        while i < self.branches.len()
            invariant
                i <= self.branches@.len(),
                forall|j: int| 0 <= j < i ==> self.branches@[j].name@ != name@,
            decreases self.branches@.len() - i,
        {
            if self.branches[i].name.eq(name) {
                return true;
            }
            i = i + 1;
        }
        false
    }

    /// Records a changed path in the uncommitted set, once.
    pub fn mark_dirty(&mut self, path: String)
        requires
            old(self).wf(),
        ensures
            final(self).wf(),
            final(self).history == old(self).history,
            final(self).head == old(self).head,
            final(self).remote_tip == old(self).remote_tip,
            final(self).branch == old(self).branch,
            final(self).remote_url == old(self).remote_url,
            final(self).branches == old(self).branches,
            seq_has_str(old(self).dirty@, path@) ==> final(self).dirty == old(self).dirty,
            !seq_has_str(old(self).dirty@, path@) ==> final(self).dirty@ == old(self).dirty@.push(
                path,
            ),
    {
        if !crate::text::vec_contains_str(&self.dirty, &path) {
            self.dirty.push(path);
        }
    }

    /// Makes the remote tip advance by one commit touching `files`, the way
    /// a fetch discovers new remote work.
    pub fn apply_remote_commit(&mut self, files: Vec<String>)
        requires
            old(self).wf(),
        ensures
            final(self).wf(),
            final(self).history.commits@.len() == old(self).history.commits@.len() + 1,
            final(self).history.commits@.subrange(0, old(self).history.commits@.len() as int)
                == old(self).history.commits@,
            final(self).history.commits@.last().parents@ == seq![old(self).remote_tip],
            final(self).history.commits@.last().files@ == files@,
            final(self).remote_tip == old(self).history.commits@.len(),
            final(self).head == old(self).head,
            final(self).branch == old(self).branch,
            final(self).remote_url == old(self).remote_url,
            final(self).branches == old(self).branches,
            final(self).dirty == old(self).dirty,
    {
        let ghost cs0 = self.history.commits@;
        let mut parents: Vec<usize> = Vec::new();
        parents.push(self.remote_tip);
        let idx = self.history.push_commit(parents, files);
        self.remote_tip = idx;
        proof {
            assert(final(self).history.commits@.subrange(0, cs0.len() as int) =~= cs0);
        }
    }

    /// Converges the local branch on the fetched remote tip.
    ///
    /// Already up to date: nothing changes. Fast-forwardable: the head moves
    /// to the remote tip. Diverged: exactly one backup branch named
    /// `backup_name` is created at the old head, and the branch is
    /// hard-reset to the remote tip; the discarded commits stay reachable
    /// from the backup branch. A forced checkout discards uncommitted
    /// changes in the moving cases. Afterwards the head always contains the
    /// remote tip.
    pub fn pull(&mut self, backup_name: String) -> (r: PullOutcome)
        requires
            old(self).wf(),
            !old(self).has_backup(backup_name@),
            backup_name@ != old(self).branch@,
        ensures
            final(self).wf(),
            final(self).history == old(self).history,
            final(self).remote_tip == old(self).remote_tip,
            final(self).branch == old(self).branch,
            final(self).remote_url == old(self).remote_url,
            old(self).up_to_date() ==> *final(self) == *old(self) && r == PullOutcome::UpToDate,
            old(self).fast_forwardable() ==> final(self).head == old(self).remote_tip && final(self).branches == old(self).branches && final(self).dirty@.len() == 0 && r
                == PullOutcome::FastForwarded,
            old(self).diverged() ==> final(self).head == old(self).remote_tip && final(self).branches@ == old(self).branches@.push(
                (Branch { name: backup_name, target: old(self).head }),
            ) && final(self).dirty@.len() == 0 && r == PullOutcome::Reset,
            final(self).up_to_date(),
    {
        match self.analyze() {
            MergeAnalysis::UpToDate => PullOutcome::UpToDate,
            MergeAnalysis::FastForward => {
                self.head = self.remote_tip;
                self.dirty = Vec::new();
                PullOutcome::FastForwarded
            },
            MergeAnalysis::Diverged => {
                self.branches.push(Branch { name: backup_name, target: self.head });
                self.head = self.remote_tip;
                self.dirty = Vec::new();
                PullOutcome::Reset
            },
        }
    }

    /// Commits whatever is uncommitted — one commit, parented on the
    /// previous head, carrying exactly the dirty paths — and then attempts
    /// to advance the remote branch to the local head. A clean tree commits
    /// nothing but still attempts the push. The push succeeds exactly when
    /// the local head already contains the remote tip; otherwise the commit
    /// stays local and the failure is surfaced.
    pub fn push(&mut self) -> (r: Result<PushReport, GitHubSyncError>)
        requires
            old(self).wf(),
        ensures
            final(self).wf(),
            final(self).branch == old(self).branch,
            final(self).remote_url == old(self).remote_url,
            final(self).branches == old(self).branches,
            final(self).dirty@.len() == 0,
            old(self).dirty@.len() == 0 ==> final(self).history == old(self).history && final(self).head == old(self).head,
            old(self).dirty@.len() > 0 ==> final(self).history.commits@.len() == old(
                self,
            ).history.commits@.len() + 1 && final(self).history.commits@.subrange(
                0,
                old(self).history.commits@.len() as int,
            ) == old(self).history.commits@ && final(self).history.commits@.last().parents@
                == seq![old(self).head] && final(self).history.commits@.last().files@ == old(
                self,
            ).dirty@ && final(self).head == old(self).history.commits@.len(),
            r matches Ok(p) ==> p.committed == (old(self).dirty@.len() > 0),
            old(self).up_to_date() ==> r is Ok && final(self).remote_tip == final(self).head,
            !old(self).up_to_date() ==> (r matches Err(e) && e is GitError) && final(self).remote_tip == old(self).remote_tip,
    {
        let ghost cs0 = self.history.commits@;
        let ghost head0 = self.head;
        let committed = self.dirty.len() > 0;
        if committed {
            let mut files: Vec<String> = Vec::new();
            core::mem::swap(&mut self.dirty, &mut files);
            let mut parents: Vec<usize> = Vec::new();
            parents.push(self.head);
            let idx = self.history.push_commit(parents, files);
            self.head = idx;
            proof {
                let c = self.history.commits@.last();
                let rt = self.remote_tip as int;
                assert(self.history.commits@.subrange(0, cs0.len() as int) =~= cs0);
                assert(self.history.commits@ =~= cs0.push(c));
                assert(c.parents@ =~= seq![head0]);
                assert(commit_wf(c, cs0.len() as int));
                lemma_reaches_new_commit(cs0, c, rt);
                assert(rt < cs0.len());
                if reaches(cs0, head0 as int, rt) {
                    assert(0 <= 0 < c.parents@.len() && reaches(cs0, c.parents@[0] as int, rt));
                }
                if exists|k: int|
                    0 <= k < c.parents@.len() && reaches(cs0, c.parents@[k] as int, rt) {
                    let k = choose|k: int|
                        0 <= k < c.parents@.len() && reaches(cs0, c.parents@[k] as int, rt);
                    assert(c.parents@[k] == head0);
                }
                assert(reaches(self.history.commits@, self.head as int, rt) == reaches(
                    cs0,
                    head0 as int,
                    rt,
                ));
            }
        }
        let pushable = self.history.is_ancestor(self.head, self.remote_tip);
        if pushable {
            self.remote_tip = self.head;
            Ok(PushReport { committed })
        } else {
            Err(
                GitHubSyncError::GitError(
                    String::from_str("remote has commits that the local branch does not contain"),
                ),
            )
        }
    }

    /// One full cycle: pull, then push, surfacing the first failure. After a
    /// pull the head always contains the remote tip, so within this model
    /// the push step always succeeds.
    pub fn sync(&mut self, backup_name: String) -> (r: Result<SyncReport, GitHubSyncError>)
        requires
            old(self).wf(),
            !old(self).has_backup(backup_name@),
            backup_name@ != old(self).branch@,
        ensures
            final(self).wf(),
            final(self).branch == old(self).branch,
            final(self).remote_url == old(self).remote_url,
            final(self).dirty@.len() == 0,
            final(self).remote_tip == final(self).head,
            r matches Ok(rep) ==> {
                &&& (rep.pull == PullOutcome::UpToDate <==> old(self).up_to_date())
                &&& (rep.pull == PullOutcome::FastForwarded <==> old(self).fast_forwardable())
                &&& (rep.pull == PullOutcome::Reset <==> old(self).diverged())
                &&& rep.committed == (old(self).up_to_date() && old(self).dirty@.len() > 0)
            },
            r is Ok,
            old(self).up_to_date() && old(self).dirty@.len() == 0 ==> final(self).history == old(
                self,
            ).history && final(self).head == old(self).head && final(self).branches == old(
                self,
            ).branches,
            old(self).up_to_date() && old(self).dirty@.len() > 0 ==> final(self).history.commits@.len() == old(self).history.commits@.len() + 1 && final(self).history.commits@.subrange(0, old(self).history.commits@.len() as int) == old(
                self,
            ).history.commits@ && final(self).history.commits@.last().parents@ == seq![old(
                self,
            ).head] && final(self).history.commits@.last().files@ == old(self).dirty@ && final(self).head == old(self).history.commits@.len() && final(self).branches == old(
                self,
            ).branches,
            old(self).fast_forwardable() ==> final(self).history == old(self).history && final(self).head == old(self).remote_tip && final(self).branches == old(self).branches,
            old(self).diverged() ==> final(self).history == old(self).history && final(self).head
                == old(self).remote_tip && final(self).branches@ == old(self).branches@.push(
                (Branch { name: backup_name, target: old(self).head }),
            ),
    {
        let pull_outcome = self.pull(backup_name);
        match self.push() {
            Ok(report) => Ok(SyncReport { pull: pull_outcome, committed: report.committed }),
            Err(e) => Err(e),
        }
    }

    /// Converges on the fetched remote tip, naming any backup branch after
    /// the time of the pull. When that name is somehow already taken the
    /// repository is left untouched and the collision is surfaced.
    pub fn pull_at(&mut self, now_secs: i64) -> (r: Result<PullOutcome, GitHubSyncError>)
        requires
            old(self).wf(),
            0 <= now_secs <= MAX_BACKUP_STAMP,
        ensures
            final(self).wf(),
            r is Err <==> old(self).has_backup(backup_name_text(now_secs as int))
                || backup_name_text(now_secs as int) == old(self).branch@,
            r matches Err(e) ==> e is GitError && *final(self) == *old(self),
            r matches Ok(outcome) ==> {
                &&& final(self).history == old(self).history
                &&& final(self).remote_tip == old(self).remote_tip
                &&& final(self).branch == old(self).branch
                &&& final(self).remote_url == old(self).remote_url
                &&& final(self).up_to_date()
                &&& (old(self).up_to_date() ==> *final(self) == *old(self) && outcome
                    == PullOutcome::UpToDate)
                &&& (old(self).fast_forwardable() ==> final(self).head == old(self).remote_tip
                    && final(self).branches == old(self).branches && final(self).dirty@.len() == 0
                    && outcome == PullOutcome::FastForwarded)
                &&& (old(self).diverged() ==> final(self).head == old(self).remote_tip && final(self).branches@.len() == old(self).branches@.len() + 1 && final(self).branches@.drop_last() == old(self).branches@ && final(self).branches@.last().name@ == backup_name_text(now_secs as int) && final(self).branches@.last().target == old(self).head && final(self).dirty@.len() == 0
                    && outcome == PullOutcome::Reset)
            },
    {
        let name = make_backup_name(now_secs);
        if self.has_branch(&name) {
            return Err(
                GitHubSyncError::GitError(
                    String::from_str("backup branch name is already taken"),
                ),
            );
        }
        Ok(self.pull(name))
    }

    /// How many commits the local head is ahead of the remote tip, and how
    /// many it is behind.
    pub fn ahead_behind(&self) -> (r: (usize, usize))
        requires
            self.wf(),
        ensures
            r.0 == spec_ahead(self.history.commits@, self.head as int, self.remote_tip as int),
            r.1 == spec_ahead(self.history.commits@, self.remote_tip as int, self.head as int),
    {
        let ahead = self.history.count_ahead(self.head, self.remote_tip);
        let behind = self.history.count_ahead(self.remote_tip, self.head);
        (ahead, behind)
    }
}

} // verus!
