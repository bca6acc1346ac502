use github_sync::config::{
    apply_config_update, is_ssh_url, remote_url_for, split_paths, Config, DEFAULT_SYNC_INTERVAL,
};
use github_sync::digits::{parse_u64, u64_to_dec};
use github_sync::errors::GitHubSyncError;
use github_sync::git::{auto_commit_message, make_backup_name};
use github_sync::poller::{is_remote_updated, parse_count};
use github_sync::status::marker_text;
use github_sync::text::{get_folder_name, split_str, trim_str};

#[test]
fn decimal_rendering_and_parsing_round_trip() {
    assert_eq!(u64_to_dec(0), "0");
    assert_eq!(u64_to_dec(7), "7");
    assert_eq!(u64_to_dec(9876543210), "9876543210");
    assert_eq!(u64_to_dec(u64::MAX), "18446744073709551615");
    for n in [0u64, 1, 9, 10, 99, 100, 4096, u64::MAX] {
        assert_eq!(parse_u64(&u64_to_dec(n)), Some(n));
    }
}

#[test]
fn parse_u64_rejects_non_digit_text_and_overflow() {
    assert_eq!(parse_u64(""), None);
    assert_eq!(parse_u64("12a"), None);
    assert_eq!(parse_u64("+5"), None);
    assert_eq!(parse_u64("-5"), None);
    assert_eq!(parse_u64(" 5"), None);
    assert_eq!(parse_u64("007"), Some(7));
    assert_eq!(parse_u64("18446744073709551615"), Some(u64::MAX));
    assert_eq!(parse_u64("18446744073709551616"), None);
}

#[test]
fn parse_count_trims_and_defaults_to_zero() {
    assert_eq!(parse_count("3"), 3);
    assert_eq!(parse_count(" 42\n"), 42);
    assert_eq!(parse_count("0"), 0);
    assert_eq!(parse_count("abc"), 0);
    assert_eq!(parse_count(""), 0);
    assert_eq!(parse_count("4294967295"), u32::MAX);
    assert_eq!(parse_count("4294967296"), 0);
}

#[test]
fn remote_is_updated_only_on_successful_positive_counts() {
    assert!(is_remote_updated(true, true, "3"));
    assert!(is_remote_updated(true, true, " 1\n"));
    assert!(!is_remote_updated(true, true, "0"));
    assert!(!is_remote_updated(true, true, "garbage"));
    assert!(!is_remote_updated(false, true, "3"));
    assert!(!is_remote_updated(true, false, "3"));
}

#[test]
fn trimming_strips_surrounding_whitespace_only() {
    assert_eq!(trim_str("  a b\t"), "a b");
    assert_eq!(trim_str("\r\nx\n"), "x");
    assert_eq!(trim_str("none"), "none");
    assert_eq!(trim_str("   "), "");
    assert_eq!(trim_str(""), "");
}

#[test]
fn splitting_keeps_empty_pieces_like_str_split() {
    assert_eq!(split_str("a,b,c", ','), vec!["a", "b", "c"]);
    assert_eq!(split_str("a,,c", ','), vec!["a", "", "c"]);
    assert_eq!(split_str("", ','), vec![""]);
    assert_eq!(split_str(",", ','), vec!["", ""]);
    assert_eq!(split_str("abc", ','), vec!["abc"]);
}

#[test]
fn split_paths_trims_each_entry() {
    assert_eq!(split_paths("a, b ,c"), vec!["a", "b", "c"]);
    assert_eq!(split_paths("one"), vec!["one"]);
    assert_eq!(split_paths(" docs , src/notes "), vec!["docs", "src/notes"]);
}

#[test]
fn folder_names_come_from_the_last_component() {
    assert_eq!(get_folder_name("a/b/c"), Some("c".to_string()));
    assert_eq!(get_folder_name("a/b/"), Some("b".to_string()));
    assert_eq!(get_folder_name("solo"), Some("solo".to_string()));
    assert_eq!(get_folder_name("///"), None);
    assert_eq!(get_folder_name(""), None);
}

#[test]
fn ssh_urls_are_recognized_and_built() {
    assert!(is_ssh_url("git@github.com:u/r.git"));
    assert!(!is_ssh_url("https://github.com/u/r.git"));
    assert!(!is_ssh_url("git"));
    let url = remote_url_for("someone", "notes");
    assert_eq!(url, "git@github.com:someone/notes.git");
    assert!(is_ssh_url(&url));
}

#[test]
fn config_defaults_and_is_configured() {
    let c = Config::default_config();
    assert_eq!(c.branch, "main");
    assert_eq!(c.sync_interval, DEFAULT_SYNC_INTERVAL);
    assert!(c.sync_paths.is_empty());
    assert!(!c.is_configured());
    let ready = Config {
        remote_url: "git@github.com:u/r.git".to_string(),
        branch: "main".to_string(),
        sync_paths: vec![],
        sync_interval: 300,
    };
    assert!(ready.is_configured());
}

#[test]
fn config_update_applies_all_given_fields() {
    let base = Config::default_config();
    let updated = apply_config_update(
        base,
        Some("git@github.com:u/r.git".to_string()),
        Some("trunk".to_string()),
        Some("docs, src ".to_string()),
        Some(60),
    )
    .expect("all fields are valid");
    assert_eq!(updated.remote_url, "git@github.com:u/r.git");
    assert_eq!(updated.branch, "trunk");
    assert_eq!(updated.sync_paths, vec!["docs", "src"]);
    assert_eq!(updated.sync_interval, 60);

    // Leaving a field out keeps the base value.
    let kept = apply_config_update(
        Config::default_config(),
        None,
        None,
        None,
        Some(DEFAULT_SYNC_INTERVAL),
    )
    .expect("valid");
    assert_eq!(kept.branch, "main");
}

#[test]
fn config_update_rejects_non_ssh_remotes() {
    match apply_config_update(
        Config::default_config(),
        Some("https://github.com/u/r.git".to_string()),
        None,
        None,
        None,
    ) {
        Err(GitHubSyncError::ConfigError(msg)) => {
            assert_eq!(msg, "Remote URL must be an SSH URL (starting with git@)")
        }
        _ => panic!("a non-SSH remote must be refused"),
    }
}

#[test]
fn config_update_rejects_intervals_below_the_minimum() {
    match apply_config_update(Config::default_config(), None, None, None, Some(4)) {
        Err(GitHubSyncError::ConfigError(msg)) => {
            assert_eq!(msg, "Sync interval must be at least 5 seconds")
        }
        _ => panic!("a short interval must be refused"),
    }
}

#[test]
fn backup_names_carry_the_utc_timestamp() {
    assert_eq!(make_backup_name(0), "backup_19700101_000000");
    assert_eq!(make_backup_name(1431648000), "backup_20150515_000000");
    assert_ne!(make_backup_name(0), make_backup_name(1));
}

#[test]
fn fixed_texts_match_the_daemon_artifacts() {
    assert_eq!(auto_commit_message(), "GitHub Sync: Auto-commit changes");
    assert_eq!(marker_text(40123), "40123");
    assert_eq!(github_sync::watcher::status_file_name(), ".github-sync.status");
}

#[test]
fn every_error_kind_carries_its_message() {
    let cases = vec![
        GitHubSyncError::IoError("io".to_string()),
        GitHubSyncError::GitError("git".to_string()),
        GitHubSyncError::ConfigError("config".to_string()),
        GitHubSyncError::WatchError("watch".to_string()),
        GitHubSyncError::SignalError("signal".to_string()),
        GitHubSyncError::GitHubError("github".to_string()),
        GitHubSyncError::LockError("lock".to_string()),
        GitHubSyncError::UnknownError("unknown".to_string()),
    ];
    let texts: Vec<&str> = cases.iter().map(|e| e.message().as_str()).collect();
    assert_eq!(
        texts,
        vec!["io", "git", "config", "watch", "signal", "github", "lock", "unknown"]
    );
}
