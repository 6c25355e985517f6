//! The bounds and checks of the saved run history: a file of at most
//! 64 MiB in version 1, no run twice, at most a hundred reports of at most
//! ten thousand events each.
use vstd::prelude::*;
use vstd::string::StringExecFns;
use crate::server::{decimal, decimal_chars};
use crate::text::{str_eq, string_of, string_views};

verus! {

/// The history format this interface reads and writes.
pub const HISTORY_VERSION: u32 = 1;

/// How many reports the history keeps.
pub const MAX_REPORTS: usize = 100;

/// How many events of a report the history keeps.
pub const MAX_EVENTS: usize = 10000;

/// The largest history file, in bytes.
pub const MAX_BYTES: u64 = 67108864;

/// The error for a history file over the size limit; a save keeps the
/// previous file.
pub open spec fn oversize_message(saving: bool) -> Seq<char> {
    if saving {
        "history exceeds the 64 MiB limit; previous snapshot retained"@
    } else {
        "history exceeds the 64 MiB limit"@
    }
}

/// Whether no value occurs twice.
pub open spec fn no_repeats(s: Seq<Seq<char>>) -> bool {
    forall|i: int, j: int| 0 <= i < j < s.len() ==> s[i] != s[j]
}

/// Why a read history cannot be used: an unknown version, or a run that
/// occurs twice.
pub open spec fn snapshot_problem(version: u32, run_ids: Seq<Seq<char>>) -> Option<Seq<char>> {
    if version != HISTORY_VERSION {
        Some("unsupported history version "@ + decimal(version as nat))
    } else if !no_repeats(run_ids) {
        Some("duplicate run IDs in history"@)
    } else {
        None
    }
}

/// The size check of a history file of `len` bytes, on reading or saving.
pub fn size_check(len: u64, saving: bool) -> (r: Result<(), String>)
    ensures
        len <= MAX_BYTES ==> r is Ok,
        len > MAX_BYTES ==> (r matches Err(e) && e@ == oversize_message(saving)),
{
    if len > MAX_BYTES {
        if saving {
            Err("history exceeds the 64 MiB limit; previous snapshot retained".to_owned())
        } else {
            Err("history exceeds the 64 MiB limit".to_owned())
        }
    } else {
        Ok(())
    }
}

/// Whether some run id occurs twice.
fn has_repeat(run_ids: &Vec<String>) -> (r: bool)
    ensures
        r == !no_repeats(string_views(run_ids@)),
{
    let ghost ids = string_views(run_ids@);
    let mut j: usize = 0;
    while j < run_ids.len()
        invariant
            j <= run_ids@.len(),
            ids == string_views(run_ids@),
            forall|a: int, b: int| 0 <= a < b < j ==> ids[a] != ids[b],
        decreases run_ids.len() - j,
    {
        let mut i: usize = 0;
        while i < j
            invariant
                i <= j < run_ids@.len(),
                ids == string_views(run_ids@),
                forall|a: int| 0 <= a < i ==> ids[a] != ids[j as int],
            decreases j - i,
        {
            if str_eq(run_ids[i].as_str(), run_ids[j].as_str()) {
                assert(ids[i as int] == ids[j as int]);
                return true;
            }
            i += 1;
        }
        j += 1;
    }
    false
}

/// Checks a read history: its version and that no run occurs twice.
pub fn snapshot_check(version: u32, run_ids: &Vec<String>) -> (r: Result<(), String>)
    ensures
        match snapshot_problem(version, string_views(run_ids@)) {
            Some(p) => r matches Err(e) && e@ == p,
            None => r is Ok,
        },
{
    if version != HISTORY_VERSION {
        let mut e = "unsupported history version ".to_owned();
        let digits = string_of(&decimal_chars(version as u128));
        e.append(digits.as_str());
        return Err(e);
    }
    if has_repeat(run_ids) {
        return Err("duplicate run IDs in history".to_owned());
    }
    Ok(())
}

/// Keeps the newest reports, at most `MAX_REPORTS`.
pub fn bound_reports<R>(reports: &mut Vec<R>)
    ensures
        final(reports)@ == if old(reports)@.len() > MAX_REPORTS {
            old(reports)@.take(MAX_REPORTS as int)
        } else {
            old(reports)@
        },
{
    reports.truncate(MAX_REPORTS);
}

/// Keeps the newest events of a report, at most `MAX_EVENTS`; the oldest
/// come first and go first.
pub fn bound_events<E>(events: &mut Vec<E>)
    ensures
        final(events)@ == if old(events)@.len() > MAX_EVENTS {
            old(events)@.skip(old(events)@.len() - MAX_EVENTS)
        } else {
            old(events)@
        },
{
    if events.len() > MAX_EVENTS {
        let excess = events.len() - MAX_EVENTS;
        let kept = events.split_off(excess);
        *events = kept;
    }
}

} // verus!
