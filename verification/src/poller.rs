//! The remote poller's decisions. On a fixed period the surrounding process
//! fetches and asks the repository how many commits the remote is ahead;
//! this module decides, from those raw results, whether a pull is due.

use crate::digits::{dec_val, is_digit_seq, parse_u64};
use crate::text::{spec_trim, trim_str};
use vstd::prelude::*;

verus! {

/// How often the remote is polled, in time units.
pub const POLL_PERIOD: u64 = 2;

/// The count a rev-list output stands for: its trimmed text read as a
/// decimal number, or zero when it is not one that fits.
pub open spec fn spec_rev_count(s: Seq<char>) -> nat {
    let t = spec_trim(s);
    if is_digit_seq(t) && dec_val(t) <= u32::MAX {
        dec_val(t)
    } else {
        0
    }
}

/// Reads a rev-list count: the trimmed text as a decimal number, or zero
/// when it is malformed or too large.
pub fn parse_count(s: &str) -> (r: u32)
    ensures
        r == spec_rev_count(s@),
{
    let trimmed = trim_str(s);
    match parse_u64(trimmed.as_str()) {
        Some(v) => {
            if v <= u32::MAX as u64 {
                v as u32
            } else {
                0
            }
        },
        None => 0,
    }
}

/// Decides one poll tick: a pull is due exactly when the fetch and the
/// rev-list both succeeded and the remote is ahead by at least one commit.
pub fn is_remote_updated(fetch_ok: bool, rev_list_ok: bool, rev_list_stdout: &str) -> (r: bool)
    ensures
        r == (fetch_ok && rev_list_ok && spec_rev_count(rev_list_stdout@) > 0),
{
    if !fetch_ok || !rev_list_ok {
        return false;
    }
    parse_count(rev_list_stdout) > 0
}

} // verus!
