//! Core of a Git-based two-way folder synchronizer.
//!
//! The library holds the logic of the daemon: the debounced change batcher,
//! the pull/push reconciliation over a modelled commit history, the remote
//! poller's decisions, the status record and liveness lock, and the parsing
//! and formatting the commands rely on. The surrounding process (filesystem
//! watching, the Git transport, the CLI) drives these functions and performs
//! the actual input and output.

pub mod config;
pub mod digits;
pub mod errors;
pub mod git;
pub mod history;
pub mod poller;
pub mod status;
pub mod text;
pub mod watcher;
