use github_sync::errors::GitHubSyncError;
use github_sync::git::GitSync;
use github_sync::status::{LivenessLock, StatusStore, StopAction};
use github_sync::watcher::{
    is_git_path, is_status_file, Batcher, FsEventKind, TickAction, WatchedPathSet, BATCH_WINDOW,
    SYNC_COOLDOWN,
};

fn expect_sync(action: TickAction) -> Vec<String> {
    match action {
        TickAction::Sync(changes) => changes,
        TickAction::Idle => panic!("expected a sync, tick was idle"),
        TickAction::SkippedCooldown => panic!("expected a sync, tick hit the cooldown"),
    }
}

fn expect_idle(action: TickAction) {
    assert!(matches!(action, TickAction::Idle));
}

#[test]
fn burst_of_events_triggers_exactly_one_sync() {
    let mut b = Batcher::new(0);
    // Three events inside one debounce window, past the startup cooldown.
    assert!(b.on_event("a.txt".to_string(), FsEventKind::Create, 6));
    assert!(b.on_event("b.txt".to_string(), FsEventKind::Modify, 6));
    assert!(b.on_event("a.txt".to_string(), FsEventKind::Modify, 7));
    assert_eq!(b.pending.len(), 2); // the repeated path is batched once
    // Ticks inside the window do nothing.
    expect_idle(b.on_tick(7));
    expect_idle(b.on_tick(8));
    // The first tick after the quiet window fires, once, with the batch.
    let changes = expect_sync(b.on_tick(7 + BATCH_WINDOW));
    assert_eq!(changes, vec!["a.txt".to_string(), "b.txt".to_string()]);
    assert!(b.pending.is_empty());
    // Nothing further fires without new events.
    expect_idle(b.on_tick(10));
    expect_idle(b.on_tick(100));
}

#[test]
fn cooldown_skips_a_second_sync_within_five_units() {
    let mut b = Batcher::new(0);
    assert!(b.on_event("a.txt".to_string(), FsEventKind::Modify, 6));
    let first = expect_sync(b.on_tick(9));
    assert_eq!(first.len(), 1);
    b.record_sync(9);
    // A new change right after: due by the window, refused by the cooldown.
    assert!(b.on_event("b.txt".to_string(), FsEventKind::Modify, 10));
    assert!(matches!(b.on_tick(12), TickAction::SkippedCooldown));
    assert!(matches!(b.on_tick(13), TickAction::SkippedCooldown));
    assert_eq!(b.pending.len(), 1); // the batch is kept, not dropped
    // Once the cooldown expires the batch goes out on the next tick.
    let second = expect_sync(b.on_tick(9 + SYNC_COOLDOWN));
    assert_eq!(second, vec!["b.txt".to_string()]);
}

#[test]
fn filtered_events_change_nothing() {
    let mut b = Batcher::new(0);
    assert!(!b.on_event("repo/.git/index".to_string(), FsEventKind::Modify, 6));
    assert!(!b.on_event(".github-sync.status".to_string(), FsEventKind::Modify, 6));
    assert!(!b.on_event("d/.github-sync.status".to_string(), FsEventKind::Create, 6));
    assert!(!b.on_event("a.txt".to_string(), FsEventKind::Other, 6));
    assert!(b.pending.is_empty());
    expect_idle(b.on_tick(20));
}

#[test]
fn git_path_filter_matches_components_only() {
    assert!(is_git_path(".git"));
    assert!(is_git_path(".git/config"));
    assert!(is_git_path("repo/.git/objects/ab"));
    assert!(is_git_path("deep/repo/.git"));
    assert!(!is_git_path(".gitignore"));
    assert!(!is_git_path("repo/.gitignore"));
    assert!(!is_git_path("foo.git"));
    assert!(!is_git_path("a/b/c.txt"));
}

#[test]
fn status_file_filter_matches_the_exact_file_name() {
    assert!(is_status_file(".github-sync.status"));
    assert!(is_status_file("watched/.github-sync.status"));
    assert!(!is_status_file("x.github-sync.status"));
    assert!(!is_status_file(".github-sync.status.bak"));
    assert!(!is_status_file("status"));
}

#[test]
fn watch_directory_then_write_file_then_wait_syncs_and_clears_status() {
    // Watch a directory, write `a.txt`, wait out the debounce window: the
    // pending set empties, and a commit touching `a.txt` reaches the remote.
    let mut watched = WatchedPathSet::new();
    let mut repo = GitSync::new(
        "git@github.com:user/repo.git".to_string(),
        "main".to_string(),
    );
    let mut batcher = Batcher::new(0);
    let mut store = StatusStore::new();

    assert!(matches!(watched.watch("d".to_string()), Ok(true)));

    // The write arrives as a filesystem event (past the startup cooldown).
    assert!(batcher.on_event("d/a.txt".to_string(), FsEventKind::Create, 6));
    store.write_status(6, batcher.pending.clone());
    repo.mark_dirty("d/a.txt".to_string());
    assert_eq!(
        store.read_status().as_ref().unwrap().pending_changes,
        vec!["d/a.txt".to_string()]
    );

    // Three time units later the tick fires and the sync runs.
    let changes = expect_sync(batcher.on_tick(9));
    assert_eq!(changes, vec!["d/a.txt".to_string()]);
    let report = repo.sync("backup_unused".to_string()).expect("sync succeeds");
    assert!(report.committed);
    batcher.record_sync(9);
    store.write_status(9, batcher.pending.clone());

    // The status record shows nothing pending.
    let status = store.read_status().as_ref().unwrap();
    assert!(status.pending_changes.is_empty());
    assert_eq!(status.last_sync, 9);
    // A commit touching `a.txt` exists on the branch and was pushed.
    let commit = repo.history.commits.last().unwrap();
    assert_eq!(commit.files, vec!["d/a.txt".to_string()]);
    assert_eq!(repo.remote_tip, repo.head);
}

#[test]
fn watch_is_idempotent_and_refuses_git_metadata() {
    let mut watched = WatchedPathSet::new();
    assert!(matches!(watched.watch("d".to_string()), Ok(true)));
    assert!(matches!(watched.watch("d".to_string()), Ok(false)));
    assert!(matches!(
        watched.watch("d/.git".to_string()),
        Err(GitHubSyncError::WatchError(_))
    ));
    assert_eq!(watched.paths.len(), 1);

    assert!(watched.unwatch(&"d".to_string()));
    assert!(!watched.unwatch(&"d".to_string()));
    assert!(watched.paths.is_empty());
}

#[test]
fn acquire_lock_twice_fails_with_already_running() {
    let mut lock = LivenessLock::new();
    assert!(lock.acquire_lock(1234).is_ok());
    match lock.acquire_lock(5678) {
        Err(GitHubSyncError::LockError(msg)) => assert_eq!(msg, "already running"),
        other => panic!("second acquire must fail with the lock error, got {:?}", other.is_ok()),
    }
    // The original holder is untouched; releasing frees it for a new daemon.
    assert_eq!(lock.holder, Some(1234));
    lock.release_lock();
    lock.release_lock(); // releasing an unheld lock is safe
    assert!(lock.acquire_lock(5678).is_ok());
}

#[test]
fn stop_action_reads_the_marker() {
    assert_eq!(github_sync::status::stop_action(None), StopAction::NotRunning);
    assert_eq!(
        github_sync::status::stop_action(Some("1234\n")),
        StopAction::Kill(1234)
    );
    assert_eq!(
        github_sync::status::stop_action(Some("  77  ")),
        StopAction::Kill(77)
    );
    assert_eq!(
        github_sync::status::stop_action(Some("not-a-pid")),
        StopAction::CleanupInvalid
    );
    assert_eq!(
        github_sync::status::stop_action(Some("")),
        StopAction::CleanupInvalid
    );
}

#[test]
fn status_store_overwrites_whole_records() {
    let mut store = StatusStore::new();
    assert!(store.read_status().is_none());
    store.write_status(5, vec!["a".to_string(), "b".to_string()]);
    store.write_status(8, vec!["c".to_string()]);
    let record = store.read_status().as_ref().unwrap();
    assert_eq!(record.last_sync, 8);
    assert_eq!(record.pending_changes, vec!["c".to_string()]);
}
