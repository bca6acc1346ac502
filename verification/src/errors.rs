//! The failure taxonomy of the synchronizer.

use vstd::prelude::*;

verus! {

/// Every failure the synchronizer surfaces, with a human-readable detail.
#[derive(Debug)]
pub enum GitHubSyncError {
    IoError(String),
    GitError(String),
    ConfigError(String),
    WatchError(String),
    SignalError(String),
    GitHubError(String),
    LockError(String),
    UnknownError(String),
}

impl GitHubSyncError {
    /// The detail string carried by the error, whatever its kind.
    pub fn message(&self) -> (r: &String)
        ensures
            r@ == self.detail(),
    {
        match self {
            GitHubSyncError::IoError(s) => s,
            GitHubSyncError::GitError(s) => s,
            GitHubSyncError::ConfigError(s) => s,
            GitHubSyncError::WatchError(s) => s,
            GitHubSyncError::SignalError(s) => s,
            GitHubSyncError::GitHubError(s) => s,
            GitHubSyncError::LockError(s) => s,
            GitHubSyncError::UnknownError(s) => s,
        }
    }

    /// The detail string of an error value.
    pub open spec fn detail(&self) -> Seq<char> {
        match self {
            GitHubSyncError::IoError(s) => s@,
            GitHubSyncError::GitError(s) => s@,
            GitHubSyncError::ConfigError(s) => s@,
            GitHubSyncError::WatchError(s) => s@,
            GitHubSyncError::SignalError(s) => s@,
            GitHubSyncError::GitHubError(s) => s@,
            GitHubSyncError::LockError(s) => s@,
            GitHubSyncError::UnknownError(s) => s@,
        }
    }
}

} // verus!
