//! The status record and the liveness lock: the daemon's two on-disk
//! artifacts besides the repository. The record makes the daemon observable;
//! the lock makes it a singleton. The file reads and writes happen outside;
//! these types hold the logic of what is written and when acquisition fails.

use crate::digits::{dec_val, is_digit_seq, parse_u64, spec_digits, u64_to_dec};
use crate::errors::GitHubSyncError;
use crate::text::{spec_trim, trim_str};
use vstd::prelude::*;

verus! {

/// The persisted status: when the last sync happened and which paths still
/// await one.
pub struct StatusInfo {
    pub last_sync: u64,
    pub pending_changes: Vec<String>,
}

/// The status record as the daemon sees it: the last written value, or
/// absent when never written.
pub struct StatusStore {
    pub record: Option<StatusInfo>,
}

impl StatusStore {
    /// A store that was never written.
    pub fn new() -> (r: StatusStore)
        ensures
            r.record is None,
    {
        StatusStore { record: None }
    }

    /// Overwrites the record with a fresh timestamp and the given pending
    /// set. The whole record is replaced at once.
    pub fn write_status(&mut self, now: u64, pending: Vec<String>)
        ensures
            final(self).record == Some(
                (StatusInfo { last_sync: now, pending_changes: pending }),
            ),
    {
        self.record = Some(StatusInfo { last_sync: now, pending_changes: pending });
    }

    /// The last written record, or absent when never written.
    pub fn read_status(&self) -> (r: &Option<StatusInfo>)
        ensures
            *r == self.record,
    {
        &self.record
    }
}

/// Whether the lock is free.
pub open spec fn lock_available(l: LivenessLock) -> bool {
    l.holder is None
}

/// The liveness marker: present while a daemon instance runs, holding that
/// instance's process id.
pub struct LivenessLock {
    pub holder: Option<u64>,
}

impl LivenessLock {
    /// A lock nobody holds.
    pub fn new() -> (r: LivenessLock)
        ensures
            lock_available(r),
    {
        LivenessLock { holder: None }
    }

    /// Takes the lock for process `pid`. Fails with "already running" when
    /// some instance already holds it; the holder is then left unchanged.
    pub fn acquire_lock(&mut self, pid: u64) -> (r: Result<(), GitHubSyncError>)
        ensures
            lock_available(*old(self)) ==> r is Ok && final(self).holder == Some(pid),
            !lock_available(*old(self)) ==> (r matches Err(e) && e is LockError && e.detail()
                == "already running"@) && *final(self) == *old(self),
    {
        match self.holder {
            None => {
                self.holder = Some(pid);
                Ok(())
            },
            Some(_) => Err(GitHubSyncError::LockError(String::from_str("already running"))),
        }
    }

    /// Releases the lock; safe to call when nobody holds it.
    pub fn release_lock(&mut self)
        ensures
            lock_available(*final(self)),
    {
        self.holder = None;
    }
}

/// Acquisition is exclusive: after one acquisition succeeds, a second one
/// without an intervening release finds the lock held and must fail.
pub proof fn lemma_second_acquire_fails(l: LivenessLock, pid: u64)
    requires
        l.holder == Some(pid),
    ensures
        !lock_available(l),
{
}

/// The text stored in the liveness marker for process `pid`: its id as
/// decimal digits, which `stop_action` reads back as exactly `pid`.
pub fn marker_text(pid: u64) -> (r: String)
    ensures
        r@ == spec_digits(pid as nat),
        is_digit_seq(r@) && dec_val(r@) == pid,
{
    proof {
        crate::digits::lemma_digits_round_trip(pid as nat);
    }
    u64_to_dec(pid)
}

/// What the stop command does with the liveness marker it found.
#[derive(Clone, Copy, PartialEq, Eq, Structural, Debug)]
pub enum StopAction {
    /// No marker: nothing is running.
    NotRunning,
    /// A valid marker: terminate this process and delete the marker.
    Kill(u64),
    /// A malformed marker: delete it without touching any process.
    CleanupInvalid,
}

/// Decides the stop command from the marker's presence and text: absent
/// means nothing runs, unreadable text is cleaned up, and a process id is
/// terminated.
pub fn stop_action(marker: Option<&str>) -> (a: StopAction)
    ensures
        match marker {
            None => a == StopAction::NotRunning,
            Some(text) => {
                let t = spec_trim(text@);
                if is_digit_seq(t) && dec_val(t) <= u64::MAX {
                    a == StopAction::Kill(dec_val(t) as u64)
                } else {
                    a == StopAction::CleanupInvalid
                }
            },
        },
{
    match marker {
        None => StopAction::NotRunning,
        Some(text) => {
            let trimmed = trim_str(text);
            match parse_u64(trimmed.as_str()) {
                Some(pid) => StopAction::Kill(pid),
                None => StopAction::CleanupInvalid,
            }
        },
    }
}

} // verus!
