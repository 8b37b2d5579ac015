//! The history of syncs, newest first.

use vstd::prelude::*;
use crate::paths::{join_path, join_path_exec};
use crate::text::{chars_of, decimal, decimal_string, push_range};

verus! {

/// One recorded sync.
pub struct SyncHistoryEntry {
    pub timestamp: String,
    pub result: String,
    pub message: String,
    pub remote_host: String,
    pub source: String,
    pub destination: String,
}

pub open spec fn entry_view(e: SyncHistoryEntry) -> (
    Seq<char>,
    Seq<char>,
    Seq<char>,
    Seq<char>,
    Seq<char>,
    Seq<char>,
) {
    (e.timestamp@, e.result@, e.message@, e.remote_host@, e.source@, e.destination@)
}

/// At most this many syncs are kept.
pub const MAX_ENTRIES: usize = 50;

/// Longer sync output is cut to this many characters.
pub const MAX_MESSAGE_CHARS: usize = 1000;

/// Where the history lives in the application data directory.
pub fn history_path(app_data_dir: &str) -> (r: String)
    ensures
        r@ == join_path(app_data_dir@, "sync_history.json"@),
{
    join_path_exec(app_data_dir, "sync_history.json")
}

/// Long output cut to its first 1000 characters and marked as truncated.
pub open spec fn trimmed_message(m: Seq<char>) -> Seq<char> {
    if m.len() > 1000 {
        m.take(1000) + "\n… (truncated)"@
    } else {
        m
    }
}

/// Cuts long output (see `trimmed_message`).
pub fn trim_message(message: &str) -> (r: String)
    ensures
        r@ == trimmed_message(message@),
{
    let v = chars_of(message);
    if v.len() > MAX_MESSAGE_CHARS {
        let mut r = String::new();
        push_range(&mut r, &v, 0, MAX_MESSAGE_CHARS);
        assert(v@.subrange(0, 1000) =~= v@.take(1000));
        r.append("\n… (truncated)");
        r
    } else {
        String::from_str(message)
    }
}

/// The history after recording `entry`: it goes first, and only the newest 50
/// are kept.
pub open spec fn appended<T>(entries: Seq<T>, entry: T) -> Seq<T> {
    let all = seq![entry] + entries;
    if all.len() > 50 {
        all.take(50)
    } else {
        all
    }
}

/// Records `entry` in the history `entries` (see `appended`).
pub fn append(entries: Vec<SyncHistoryEntry>, entry: SyncHistoryEntry) -> (r: Vec<
    SyncHistoryEntry,
>)
    ensures
        r@ == appended(entries@, entry),
{
    let ghost orig = entries@;
    let mut entries = entries;
    entries.insert(0, entry);
    assert(entries@ =~= seq![entry] + orig);
    if entries.len() > MAX_ENTRIES {
        entries.truncate(MAX_ENTRIES);
    }
    assert(entries@ =~= appended(orig, entry));
    entries
}

/// The message recorded for a sync started by hand.
pub open spec fn manual_sync_message(
    success: bool,
    remote_host: Seq<char>,
    files_copied: u64,
    output: Seq<char>,
) -> Seq<char> {
    if success {
        "Synced to "@ + remote_host + ": "@ + decimal(files_copied as nat) + " items"@
    } else {
        "Sync errors:\n"@ + trimmed_message(output)
    }
}

/// The message recorded for a sync started by hand.
pub fn manual_sync_message_text(
    success: bool,
    remote_host: &str,
    files_copied: u64,
    output: &str,
) -> (r: String)
    ensures
        r@ == manual_sync_message(success, remote_host@, files_copied, output@),
{
    if success {
        let mut m = String::from_str("Synced to ");
        m.append(remote_host);
        m.append(": ");
        m.append(decimal_string(files_copied).as_str());
        m.append(" items");
        m
    } else {
        let mut m = String::from_str("Sync errors:\n");
        m.append(trim_message(output).as_str());
        m
    }
}

/// A history entry; the result is `success` or `error`.
pub fn history_entry(
    timestamp: String,
    success: bool,
    message: String,
    remote_host: &str,
    source: &str,
    destination: &str,
) -> (r: SyncHistoryEntry)
    ensures
        entry_view(r) == (
            timestamp@,
            if success {
                "success"@
            } else {
                "error"@
            },
            message@,
            remote_host@,
            source@,
            destination@,
        ),
{
    SyncHistoryEntry {
        timestamp,
        result: String::from_str(if success { "success" } else { "error" }),
        message,
        remote_host: String::from_str(remote_host),
        source: String::from_str(source),
        destination: String::from_str(destination),
    }
}

/// Law: the history keeps the newest entry first, holds at most 50 entries,
/// and keeps the older entries in their order.
pub proof fn law_history_newest_first<T>(entries: Seq<T>, entry: T)
    ensures
        appended(entries, entry).len() <= 50,
        appended(entries, entry).len() == if entries.len() < 50 {
            entries.len() + 1
        } else {
            50
        },
        appended(entries, entry)[0] == entry,
        forall|i: int|
            1 <= i < appended(entries, entry).len() ==> #[trigger] appended(entries, entry)[i]
                == entries[i - 1],
{
}

} // verus!
