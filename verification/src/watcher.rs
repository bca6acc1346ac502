//! The local change batcher: filesystem events are filtered, coalesced into
//! a pending set, and turned into exactly one sync once the debounce window
//! elapses — never more often than the cooldown allows. The event loop that
//! blocks on the watcher back end lives outside; it feeds events and clock
//! ticks in and performs the sync the batcher asks for.
//!
//! Watched directories are kept in a set of their own, which refuses the Git
//! metadata directory so the watcher can never feed on the repository's own
//! bookkeeping.

use crate::errors::GitHubSyncError;
use crate::text::{
    contains_component, ends_with_component, has_component, last_component_is, seq_has_str,
    vec_contains_str,
};
use vstd::prelude::*;

verus! {

/// How long the event queue is polled before a timeout tick, in time units.
pub const RECV_TIMEOUT: u64 = 1;

/// The quiet period after the last event before a batch is synced, in time
/// units.
pub const BATCH_WINDOW: u64 = 2;

/// The least time between two syncs, in time units.
pub const SYNC_COOLDOWN: u64 = 5;

/// The file the status record is kept in.
pub fn status_file_name() -> (r: &'static str)
    ensures
        r@ == ".github-sync.status"@,
{
    ".github-sync.status"
}

/// The kinds of filesystem event the batcher reacts to.
#[derive(Clone, Copy, PartialEq, Eq, Structural, Debug)]
pub enum FsEventKind {
    Create,
    Modify,
    Remove,
    /// Anything else the watcher back end reports; ignored.
    Other,
}

/// Whether `path` lies under a Git metadata directory.
pub fn is_git_path(path: &str) -> (r: bool)
    ensures
        r == has_component(path@, ".git"@),
{
    proof {
        reveal_strlit(".git");
    }
    contains_component(path, ".git")
}

/// Whether `path` is the status record's own file.
pub fn is_status_file(path: &str) -> (r: bool)
    ensures
        r == last_component_is(path@, ".github-sync.status"@),
{
    ends_with_component(path, status_file_name())
}

/// Whether an event is dropped rather than batched: uninteresting kinds,
/// Git metadata, and the status record itself (whose writes would otherwise
/// feed back into the watcher).
pub open spec fn event_filtered(path: Seq<char>, kind: FsEventKind) -> bool {
    kind == FsEventKind::Other || has_component(path, ".git"@) || last_component_is(
        path,
        ".github-sync.status"@,
    )
}

/// Whether a tick at `now` finds a batch whose debounce window has elapsed.
pub open spec fn debounce_ready(b: Batcher, now: u64) -> bool {
    b.pending@.len() > 0 && now - b.last_event >= BATCH_WINDOW
}

/// Whether a tick at `now` falls within the cooldown after the last sync.
pub open spec fn cooldown_active(b: Batcher, now: u64) -> bool {
    now - b.last_sync < SYNC_COOLDOWN
}

/// Whether a tick at `now` hands the batch out for a sync.
pub open spec fn tick_fires(b: Batcher, now: u64) -> bool {
    debounce_ready(b, now) && !cooldown_active(b, now)
}

/// What a clock tick asks the caller to do.
pub enum TickAction {
    /// Nothing to do yet.
    Idle,
    /// A batch is due but the cooldown since the last sync refuses it; it
    /// stays pending and is retried on a later tick.
    SkippedCooldown,
    /// Sync now: these are the batched changes, taken out of the pending
    /// set.
    Sync(Vec<String>),
}

/// The debounce state: the pending change set and the clocks it is judged
/// against. Times are in the daemon's time units, from a monotonic clock.
pub struct Batcher {
    pub pending: Vec<String>,
    pub last_event: u64,
    pub last_sync: u64,
}

impl Batcher {
    /// A batcher started at time `start` with nothing pending. The cooldown
    /// runs from `start`, so the first sync waits out the cooldown.
    pub fn new(start: u64) -> (b: Batcher)
        ensures
            b.pending@.len() == 0,
            b.last_event == start,
            b.last_sync == start,
    {
        Batcher { pending: Vec::new(), last_event: start, last_sync: start }
    }

    /// Takes one filesystem event at time `now`. A filtered event changes
    /// nothing; any other event joins the pending set (once) and restarts
    /// the debounce window. Returns whether the event was batched, which is
    /// when the caller persists the grown pending set to the status record.
    pub fn on_event(&mut self, path: String, kind: FsEventKind, now: u64) -> (batched: bool)
        ensures
            batched == !event_filtered(path@, kind),
            !batched ==> *final(self) == *old(self),
            batched ==> final(self).last_event == now && final(self).last_sync == old(self).last_sync && (seq_has_str(old(self).pending@, path@) ==> final(self).pending == old(self).pending) && (!seq_has_str(old(self).pending@, path@) ==> final(self).pending@ == old(self).pending@.push(path)),
    {
        let filtered = match kind {
            FsEventKind::Other => true,
            _ => is_git_path(path.as_str()) || is_status_file(path.as_str()),
        };
        if filtered {
            return false;
        }
        if !vec_contains_str(&self.pending, &path) {
            self.pending.push(path);
        }
        self.last_event = now;
        true
    }

    /// Takes one timeout tick at time `now`. With no due batch nothing
    /// happens. A due batch within the cooldown is refused and kept. A due
    /// batch past the cooldown is handed out for exactly one sync and the
    /// pending set is emptied; the caller then persists an empty status
    /// record and reports the sync's completion through `record_sync`.
    pub fn on_tick(&mut self, now: u64) -> (a: TickAction)
        requires
            now >= old(self).last_event,
            now >= old(self).last_sync,
        ensures
            !debounce_ready(*old(self), now) ==> *final(self) == *old(self) && a is Idle,
            debounce_ready(*old(self), now) && cooldown_active(*old(self), now) ==> *final(self)
                == *old(self) && a is SkippedCooldown,
            tick_fires(*old(self), now) ==> final(self).pending@.len() == 0 && final(self).last_event == old(self).last_event && final(self).last_sync == old(self).last_sync
                && (a matches TickAction::Sync(batch) && batch == old(self).pending),
            view_of(*final(self)) == view_tick(view_of(*old(self)), now),
    {
        if self.pending.len() > 0 && now - self.last_event >= BATCH_WINDOW {
            if now - self.last_sync < SYNC_COOLDOWN {
                TickAction::SkippedCooldown
            } else {
                let mut batch: Vec<String> = Vec::new();
                core::mem::swap(&mut self.pending, &mut batch);
                TickAction::Sync(batch)
            }
        } else {
            TickAction::Idle
        }
    }

    /// Records that a sync finished successfully at time `now`; the cooldown
    /// runs from here.
    pub fn record_sync(&mut self, now: u64)
        ensures
            final(self).pending == old(self).pending,
            final(self).last_event == old(self).last_event,
            final(self).last_sync == now,
    {
        self.last_sync = now;
    }
}

/// Batching is idempotent over a burst: while events keep arriving within
/// the debounce window, no tick fires, so the burst stays one batch.
pub proof fn lemma_burst_does_not_fire(b: Batcher, now: u64)
    requires
        now < b.last_event + BATCH_WINDOW,
    ensures
        !tick_fires(b, now),
{
}

/// What a tick reads and changes of the batcher: whether anything is
/// pending, and the two clocks. `on_tick` ensures that its state moves by
/// `view_tick` over this view.
pub struct BatchView {
    pub has_pending: bool,
    pub last_event: u64,
    pub last_sync: u64,
}

/// The tick-relevant view of a batcher.
pub open spec fn view_of(b: Batcher) -> BatchView {
    BatchView { has_pending: b.pending@.len() > 0, last_event: b.last_event, last_sync: b.last_sync }
}

/// `tick_fires`, over the view.
pub open spec fn view_fires(v: BatchView, now: u64) -> bool {
    v.has_pending && now - v.last_event >= BATCH_WINDOW && now - v.last_sync >= SYNC_COOLDOWN
}

/// How a tick moves the view: a firing tick takes the batch, any other
/// leaves the state alone.
pub open spec fn view_tick(v: BatchView, now: u64) -> BatchView {
    if view_fires(v, now) {
        BatchView { has_pending: false, last_event: v.last_event, last_sync: v.last_sync }
    } else {
        v
    }
}

/// How many of the ticks at times `ticks`, run in order with no events in
/// between, hand a batch out.
pub open spec fn count_fires(v: BatchView, ticks: Seq<u64>) -> nat
    decreases ticks.len(),
{
    if ticks.len() == 0 {
        0
    } else {
        (if view_fires(v, ticks[0]) {
            1nat
        } else {
            0nat
        }) + count_fires(view_tick(v, ticks[0]), ticks.drop_first())
    }
}

/// With nothing pending, no sequence of ticks ever fires.
proof fn lemma_no_pending_no_fire(v: BatchView, ticks: Seq<u64>)
    requires
        !v.has_pending,
    ensures
        count_fires(v, ticks) == 0,
    decreases ticks.len(),
{
    if ticks.len() > 0 {
        lemma_no_pending_no_fire(view_tick(v, ticks[0]), ticks.drop_first());
    }
}

/// Batching is idempotent: however many events were batched, a run of
/// ticks with no further events syncs at most once — the firing tick takes
/// the whole batch with it.
pub proof fn lemma_batch_fires_at_most_once(v: BatchView, ticks: Seq<u64>)
    ensures
        count_fires(v, ticks) <= 1,
    decreases ticks.len(),
{
    if ticks.len() > 0 {
        if view_fires(v, ticks[0]) {
            lemma_no_pending_no_fire(view_tick(v, ticks[0]), ticks.drop_first());
        } else {
            lemma_batch_fires_at_most_once(v, ticks.drop_first());
        }
    }
}

/// Batching is complete: once some tick comes after the debounce window and
/// the cooldown, the batch goes out exactly once over the whole run.
pub proof fn lemma_batch_fires_exactly_once(v: BatchView, ticks: Seq<u64>)
    requires
        exists|i: int| 0 <= i < ticks.len() && view_fires(v, ticks[i]),
    ensures
        count_fires(v, ticks) == 1,
    decreases ticks.len(),
{
    if view_fires(v, ticks[0]) {
        lemma_no_pending_no_fire(view_tick(v, ticks[0]), ticks.drop_first());
    } else {
        let i = choose|i: int| 0 <= i < ticks.len() && view_fires(v, ticks[i]);
        assert(view_fires(v, ticks.drop_first()[i - 1]));
        lemma_batch_fires_exactly_once(v, ticks.drop_first());
    }
}

/// The cooldown refuses a second sync: after a sync is recorded at
/// `sync_time`, a tick within the cooldown cannot fire, whatever is pending.
pub proof fn lemma_cooldown_refuses_second_sync(b: Batcher, now: u64)
    requires
        now >= b.last_sync,
        now < b.last_sync + SYNC_COOLDOWN,
    ensures
        !tick_fires(b, now),
{
}

/// The directories registered with the filesystem watcher. Registration is
/// idempotent, and the Git metadata directory is never accepted.
pub struct WatchedPathSet {
    pub paths: Vec<String>,
}

impl WatchedPathSet {
    /// No duplicates, and nothing under Git metadata.
    pub open spec fn wf(self) -> bool {
        &&& forall|i: int, j: int|
            0 <= i < j < self.paths@.len() ==> (#[trigger] self.paths@[i])@ != (
            #[trigger] self.paths@[j])@
        &&& forall|i: int|
            0 <= i < self.paths@.len() ==> !has_component((#[trigger] self.paths@[i])@, ".git"@)
    }

    /// An empty set.
    pub fn new() -> (r: WatchedPathSet)
        ensures
            r.wf(),
            r.paths@.len() == 0,
    {
        WatchedPathSet { paths: Vec::new() }
    }

    /// Registers a directory. Returns whether it was newly added — only then
    /// does the caller register it with the watcher back end. A path under
    /// Git metadata is refused; re-adding a watched path is a no-op.
    pub fn watch(&mut self, path: String) -> (r: Result<bool, GitHubSyncError>)
        requires
            old(self).wf(),
        ensures
            final(self).wf(),
            has_component(path@, ".git"@) ==> (r matches Err(e) && e is WatchError) && *final(self)
                == *old(self),
            !has_component(path@, ".git"@) && seq_has_str(old(self).paths@, path@) ==> (r matches
            Ok(added) && !added) && *final(self) == *old(self),
            !has_component(path@, ".git"@) && !seq_has_str(old(self).paths@, path@) ==> (r matches
            Ok(added) && added) && final(self).paths@ == old(self).paths@.push(path),
    {
        if is_git_path(path.as_str()) {
            return Err(
                GitHubSyncError::WatchError(
                    String::from_str("refusing to watch a Git metadata path"),
                ),
            );
        }
        if vec_contains_str(&self.paths, &path) {
            return Ok(false);
        }
        self.paths.push(path);
        Ok(true)
    }

    /// Deregisters a directory. Returns whether it was present — only then
    /// does the caller deregister it with the watcher back end. Removing an
    /// unwatched path is a no-op.
    pub fn unwatch(&mut self, path: &String) -> (removed: bool)
        requires
            old(self).wf(),
        ensures
            final(self).wf(),
            removed == seq_has_str(old(self).paths@, path@),
            !removed ==> *final(self) == *old(self),
            removed ==> final(self).paths@.len() == old(self).paths@.len() - 1 && !seq_has_str(
                final(self).paths@,
                path@,
            ),
    {
        let ghost ps0 = self.paths@;
        let mut i: usize = 0;
        while i < self.paths.len()
            invariant
                old(self).wf(),
                self.paths == old(self).paths,
                self.paths@ == ps0,
                ps0 == old(self).paths@,
                i <= ps0.len(),
                forall|j: int| 0 <= j < i ==> ps0[j]@ != path@,
            decreases ps0.len() - i,
        {
            if self.paths[i].eq(path) {
                self.paths.remove(i);
                proof {
                    let ps1 = self.paths@;
                    assert(forall|j: int|
                        0 <= j < ps1.len() ==> ps1[j] == if j < i {
                            ps0[j]
                        } else {
                            ps0[j + 1]
                        });
                    assert forall|j: int| 0 <= j < ps1.len() implies ps1[j]@ != path@ by {
                        if j >= i {
                            assert(ps0[j + 1]@ != ps0[i as int]@);
                        }
                    }
                    assert forall|x: int, y: int| 0 <= x < y < ps1.len() implies ps1[x]@
                        != ps1[y]@ by {
                        let x0 = if x < i { x } else { x + 1 };
                        let y0 = if y < i { y } else { y + 1 };
                        assert(ps1[x] == ps0[x0] && ps1[y] == ps0[y0] && 0 <= x0 < y0 < ps0.len());
                    }
                    assert forall|j: int| 0 <= j < ps1.len() implies !has_component(
                        ps1[j]@,
                        ".git"@,
                    ) by {
                        let j0 = if j < i { j } else { j + 1 };
                        assert(ps1[j] == ps0[j0]);
                    }
                }
                return true;
            }
            i = i + 1;
        }
        false
    }
}

} // verus!
