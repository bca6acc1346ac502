use github_sync::errors::GitHubSyncError;
use github_sync::git::{GitSync, MergeAnalysis, PullOutcome, SyncReport};

fn fresh_repo() -> GitSync {
    GitSync::new(
        "git@github.com:user/repo.git".to_string(),
        "main".to_string(),
    )
}

/// A repository where the remote is one commit ahead (fast-forwardable).
fn remote_ahead_repo() -> GitSync {
    let mut repo = fresh_repo();
    repo.apply_remote_commit(vec!["remote.txt".to_string()]);
    repo
}

/// A repository with one unpushed local commit and one unseen remote commit.
fn diverged_repo() -> GitSync {
    let mut repo = fresh_repo();
    repo.apply_remote_commit(vec!["remote.txt".to_string()]);
    repo.mark_dirty("local.txt".to_string());
    // The push commits the local change and then fails: the remote advanced.
    assert!(matches!(repo.push(), Err(GitHubSyncError::GitError(_))));
    repo
}

#[test]
fn analyze_classifies_all_three_shapes() {
    assert_eq!(fresh_repo().analyze(), MergeAnalysis::UpToDate);
    assert_eq!(remote_ahead_repo().analyze(), MergeAnalysis::FastForward);
    assert_eq!(diverged_repo().analyze(), MergeAnalysis::Diverged);
}

#[test]
fn pull_up_to_date_is_noop_without_backup() {
    let mut repo = fresh_repo();
    let head_before = repo.head;
    let outcome = repo.pull("backup_unused".to_string());
    assert_eq!(outcome, PullOutcome::UpToDate);
    assert_eq!(repo.head, head_before);
    assert!(repo.branches.is_empty());
    assert_eq!(repo.history.commits.len(), 1);
}

#[test]
fn pull_fast_forward_advances_head_without_backup() {
    let mut repo = remote_ahead_repo();
    assert_eq!(repo.head, 0);
    let outcome = repo.pull("backup_unused".to_string());
    assert_eq!(outcome, PullOutcome::FastForwarded);
    assert_eq!(repo.head, repo.remote_tip);
    assert_eq!(repo.head, 1);
    assert!(repo.branches.is_empty());
    assert_eq!(repo.history.commits.len(), 2);
}

#[test]
fn pull_diverged_creates_one_backup_and_resets() {
    let mut repo = diverged_repo();
    let prior_head = repo.head;
    let outcome = repo.pull("backup_one".to_string());
    assert_eq!(outcome, PullOutcome::Reset);
    // Exactly one new backup branch, preserving the prior local head.
    assert_eq!(repo.branches.len(), 1);
    assert_eq!(repo.branches[0].name, "backup_one");
    assert_eq!(repo.branches[0].target, prior_head);
    // The local head now equals the remote tip.
    assert_eq!(repo.head, repo.remote_tip);
    // The discarded commit is still in the history, reachable via the backup.
    assert_eq!(repo.history.commits[prior_head].files, vec!["local.txt".to_string()]);
}

#[test]
fn push_clean_tree_commits_nothing_but_attempts_push() {
    let mut repo = fresh_repo();
    let report = repo.push().expect("push on a clean up-to-date repo succeeds");
    assert!(!report.committed);
    assert_eq!(repo.history.commits.len(), 1);
    // The push attempt went through: the remote tip follows the head.
    assert_eq!(repo.remote_tip, repo.head);

    // The attempt also happens (and surfaces its failure) when the remote
    // has advanced: still no commit is created.
    let mut behind = remote_ahead_repo();
    assert!(matches!(behind.push(), Err(GitHubSyncError::GitError(_))));
    assert_eq!(behind.history.commits.len(), 2);
}

#[test]
fn push_dirty_tree_creates_one_commit_parented_on_previous_head() {
    let mut repo = fresh_repo();
    repo.mark_dirty("a.txt".to_string());
    repo.mark_dirty("b.txt".to_string());
    repo.mark_dirty("a.txt".to_string()); // marking twice keeps one entry
    let prev_head = repo.head;
    let report = repo.push().expect("push succeeds when not behind");
    assert!(report.committed);
    assert_eq!(repo.history.commits.len(), 2);
    let commit = repo.history.commits.last().unwrap();
    assert_eq!(commit.parents, vec![prev_head]);
    assert_eq!(commit.files, vec!["a.txt".to_string(), "b.txt".to_string()]);
    // The new commit is the head and was pushed.
    assert_eq!(repo.head, 1);
    assert_eq!(repo.remote_tip, repo.head);
    assert!(repo.dirty.is_empty());
}

#[test]
fn sync_pulls_then_pushes_and_reports_both_steps() {
    // Dirty and up to date: the cycle commits and pushes.
    let mut repo = fresh_repo();
    repo.mark_dirty("a.txt".to_string());
    let report = repo.sync("backup_a".to_string()).expect("sync succeeds");
    assert_eq!(
        report,
        SyncReport { pull: PullOutcome::UpToDate, committed: true }
    );
    assert_eq!(repo.remote_tip, repo.head);

    // A second immediate cycle has nothing to do.
    let report2 = repo.sync("backup_b".to_string()).expect("sync succeeds");
    assert_eq!(
        report2,
        SyncReport { pull: PullOutcome::UpToDate, committed: false }
    );

    // Diverged: the cycle resets behind a backup and pushes nothing new.
    let mut repo3 = diverged_repo();
    let report3 = repo3.sync("backup_c".to_string()).expect("sync succeeds");
    assert_eq!(
        report3,
        SyncReport { pull: PullOutcome::Reset, committed: false }
    );
    assert_eq!(repo3.remote_tip, repo3.head);
    assert_eq!(repo3.branches.len(), 1);
}

#[test]
fn ahead_behind_counts_both_directions() {
    assert_eq!(fresh_repo().ahead_behind(), (0, 0));
    assert_eq!(remote_ahead_repo().ahead_behind(), (0, 1));
    assert_eq!(diverged_repo().ahead_behind(), (1, 1));
}

#[test]
fn has_branch_sees_working_branch_and_backups() {
    let mut repo = diverged_repo();
    repo.pull("backup_one".to_string());
    assert!(repo.has_branch(&"main".to_string()));
    assert!(repo.has_branch(&"backup_one".to_string()));
    assert!(!repo.has_branch(&"backup_two".to_string()));
}

#[test]
fn pull_at_names_backups_after_the_time() {
    let mut repo = diverged_repo();
    let prior_head = repo.head;
    let outcome = repo.pull_at(0).expect("no branch collision");
    assert_eq!(outcome, PullOutcome::Reset);
    assert_eq!(repo.branches.len(), 1);
    assert_eq!(repo.branches[0].name, "backup_19700101_000000");
    assert_eq!(repo.branches[0].target, prior_head);
}

#[test]
fn pull_at_surfaces_a_backup_name_collision() {
    let mut repo = diverged_repo();
    // Something already took the name this pull would use.
    repo.pull_at(0).expect("first pull takes the name");
    // Force a second divergence at the same second.
    repo.apply_remote_commit(vec!["more.txt".to_string()]);
    repo.mark_dirty("mine.txt".to_string());
    assert!(repo.push().is_err());
    assert!(matches!(repo.pull_at(0), Err(GitHubSyncError::GitError(_))));
}
