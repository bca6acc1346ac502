//! The durable configuration record and its validation rules.

use crate::errors::GitHubSyncError;
use crate::text::{spec_split, spec_trim, split_str, str_eq, trim_str};
use vstd::prelude::*;

verus! {

/// The smallest sync interval the configuration accepts, in seconds.
pub const MIN_SYNC_INTERVAL: u64 = 5;

/// The sync interval a fresh configuration starts with, in seconds.
pub const DEFAULT_SYNC_INTERVAL: u64 = 300;

/// The durable configuration: where to sync, which branch, which paths, and
/// how often. Loaded fresh by every command; the single source of truth.
pub struct Config {
    pub remote_url: String,
    pub branch: String,
    pub sync_paths: Vec<String>,
    pub sync_interval: u64,
}

/// Whether `s` is an SSH-form Git URL, which is how every remote this tool
/// accepts begins.
pub open spec fn is_ssh_form(s: Seq<char>) -> bool {
    s.len() >= 4 && s.subrange(0, 4) == "git@"@
}

impl Config {
    /// The configuration a run starts from when none was saved yet.
    pub fn default_config() -> (r: Config)
        ensures
            r.remote_url@.len() == 0,
            r.branch@ == "main"@,
            r.sync_paths@.len() == 0,
            r.sync_interval == DEFAULT_SYNC_INTERVAL,
    {
        Config {
            remote_url: String::new(),
            branch: String::from_str("main"),
            sync_paths: Vec::new(),
            sync_interval: DEFAULT_SYNC_INTERVAL,
        }
    }

    /// Whether enough is configured for a first sync: a remote and a branch.
    pub fn is_configured(&self) -> (r: bool)
        ensures
            r == (self.remote_url@.len() > 0 && self.branch@.len() > 0),
    {
        !self.remote_url.as_str().is_empty() && !self.branch.as_str().is_empty()
    }
}

/// Whether `url` is an SSH-form Git URL.
pub fn is_ssh_url(url: &str) -> (r: bool)
    ensures
        r == is_ssh_form(url@),
{
    let len = url.unicode_len();
    if len < 4 {
        return false;
    }
    let head = url.substring_char(0, 4);
    str_eq(head, "git@")
}

/// The SSH remote URL of a repository `name` owned by `user`.
pub open spec fn spec_remote_url(user: Seq<char>, name: Seq<char>) -> Seq<char> {
    "git@github.com:"@ + user + "/"@ + name + ".git"@
}

/// Builds the SSH remote URL of the repository `name` owned by `user`. The
/// result always passes the SSH-form check.
pub fn remote_url_for(user: &str, name: &str) -> (r: String)
    ensures
        r@ == spec_remote_url(user@, name@),
        is_ssh_form(r@),
{
    let mut r = String::from_str("git@github.com:");
    r.append(user);
    r.append("/");
    r.append(name);
    r.append(".git");
    proof {
        lemma_remote_url_is_ssh(user@, name@);
    }
    r
}

/// Every URL `spec_remote_url` builds is SSH-form.
pub proof fn lemma_remote_url_is_ssh(user: Seq<char>, name: Seq<char>)
    ensures
        is_ssh_form(spec_remote_url(user, name)),
{
    reveal_strlit("git@github.com:");
    reveal_strlit("git@");
    let s = spec_remote_url(user, name);
    assert(s.subrange(0, 4) =~= "git@"@);
}

/// Splits a comma-separated path list, trimming whitespace around each entry.
pub fn split_paths(s: &str) -> (r: Vec<String>)
    ensures
        r.deep_view() == spec_split(s@, ',').map_values(|c: Seq<char>| spec_trim(c)),
{
    let parts = split_str(s, ',');
    let mut r: Vec<String> = Vec::new();
    let mut i: usize = 0;
    while i < parts.len()
        invariant
            i <= parts@.len(),
            parts.deep_view() == spec_split(s@, ','),
            r@.len() == i,
            forall|j: int| 0 <= j < i ==> r@[j]@ == spec_trim(parts@[j]@),
        decreases parts@.len() - i,
    {
        r.push(trim_str(parts[i].as_str()));
        i = i + 1;
    }
    proof {
        assert(r.deep_view() =~= spec_split(s@, ',').map_values(|c: Seq<char>| spec_trim(c)));
    }
    r
}

/// Applies a command's configuration changes to `base`, refusing a remote
/// that is not SSH-form and an interval below the minimum. On refusal the
/// base configuration is discarded unchanged, as the command leaves the
/// saved file untouched.
pub fn apply_config_update(
    base: Config,
    remote: Option<String>,
    branch: Option<String>,
    paths: Option<String>,
    interval: Option<u64>,
) -> (r: Result<Config, GitHubSyncError>)
    ensures
        match r {
            Ok(c) => {
                &&& (remote matches Some(u) ==> is_ssh_form(u@) && c.remote_url == u)
                &&& (remote is None ==> c.remote_url == base.remote_url)
                &&& (branch matches Some(b) ==> c.branch == b)
                &&& (branch is None ==> c.branch == base.branch)
                &&& (paths matches Some(p) ==> c.sync_paths.deep_view() == spec_split(
                    p@,
                    ',',
                ).map_values(|x: Seq<char>| spec_trim(x)))
                &&& (paths is None ==> c.sync_paths == base.sync_paths)
                &&& (interval matches Some(iv) ==> iv >= MIN_SYNC_INTERVAL && c.sync_interval
                    == iv)
                &&& (interval is None ==> c.sync_interval == base.sync_interval)
            },
            Err(e) => {
                &&& e is ConfigError
                &&& (remote matches Some(u) && !is_ssh_form(u@)) || (interval matches Some(iv)
                    && iv < MIN_SYNC_INTERVAL)
            },
        },
{
    let mut c = base;
    if let Some(u) = remote {
        if !is_ssh_url(u.as_str()) {
            return Err(
                GitHubSyncError::ConfigError(
                    String::from_str("Remote URL must be an SSH URL (starting with git@)"),
                ),
            );
        }
        c.remote_url = u;
    }
    if let Some(b) = branch {
        c.branch = b;
    }
    if let Some(p) = paths {
        c.sync_paths = split_paths(p.as_str());
    }
    if let Some(iv) = interval {
        if iv < MIN_SYNC_INTERVAL {
            return Err(
                GitHubSyncError::ConfigError(
                    String::from_str("Sync interval must be at least 5 seconds"),
                ),
            );
        }
        c.sync_interval = iv;
    }
    Ok(c)
}

} // verus!
