//! Which log is read or watched, and where MySQL keeps its log.

use vstd::prelude::*;
use crate::paths::{is_log_name, join_all};
use crate::text::{chars_eq, chars_of};

verus! {

/// The logs that can be read.
#[derive(Clone, Copy, Debug, PartialEq, Eq, Structural)]
pub enum LogSource {
    Apache,
    MySql,
}

/// The log named by `source`, in any case.
pub open spec fn log_source_of(lower: Seq<char>) -> Option<LogSource> {
    if lower == "apache"@ {
        Some(LogSource::Apache)
    } else if lower == "mysql"@ {
        Some(LogSource::MySql)
    } else {
        None
    }
}

/// The log asked for by name, or the refusal of an unknown name.
pub fn log_source(source: &str) -> (r: Result<LogSource, String>)
    ensures
        match log_source_of(crate::unicode::lowercase(source@)) {
            Some(s) => r == Ok::<LogSource, String>(s),
            None => r matches Err(e) && e@ == "Unknown log source: "@ + source@,
        },
{
    let lower = crate::unicode::to_lowercase(source);
    let v = chars_of(lower.as_str());
    if chars_eq(&v, &chars_of("apache")) {
        Ok(LogSource::Apache)
    } else if chars_eq(&v, &chars_of("mysql")) {
        Ok(LogSource::MySql)
    } else {
        let mut e = String::from_str("Unknown log source: ");
        e.append(source);
        Err(e)
    }
}

/// The file watched for a log: Apache's or MySQL's error log in the
/// installation `xampp_root` (see `apache_log_path`, `mysql_log_path`).
pub fn watched_log_path(xampp_root: &str, source: LogSource) -> (r: String)
    ensures
        r@ == (match source {
            LogSource::Apache => join_all(xampp_root@, seq!["apache"@, "logs"@, "error.log"@]),
            LogSource::MySql => join_all(xampp_root@, seq!["mysql"@, "data"@, "mysql.err"@]),
        }),
{
    match source {
        LogSource::Apache => crate::paths::apache_log_path(xampp_root),
        LogSource::MySql => crate::paths::mysql_log_path(xampp_root),
    }
}

/// Whether a watched log is read as Apache's: only when the watcher was
/// started for exactly `Apache`; anything else is read as MySQL's.
pub fn watch_reads_apache(source: &str) -> (r: bool)
    ensures
        r == (source@ == "Apache"@),
{
    let v = chars_of(source);
    chars_eq(&v, &chars_of("Apache"))
}

/// The lines sent with each change of a watched log.
pub const WATCH_LINES: usize = 100;

/// The message when MySQL has no error log yet.
pub open spec fn no_mysql_log_message() -> Seq<char> {
    "MySQL has not created an error log in this XAMPP installation yet. Start MySQL, then refresh this page."@
}

pub fn no_mysql_log() -> (r: String)
    ensures
        r@ == no_mysql_log_message(),
{
    String::from_str(
        "MySQL has not created an error log in this XAMPP installation yet. Start MySQL, then refresh this page.",
    )
}

/// The message when MySQL's error log cannot be read.
pub fn unreadable_mysql_log() -> (r: String)
    ensures
        r@ == "The MySQL error log could not be read. Check that XAMPP is running and that its log file is accessible."@,
{
    String::from_str(
        "The MySQL error log could not be read. Check that XAMPP is running and that its log file is accessible.",
    )
}

/// An entry of a directory searched for the MySQL log.
pub struct LogDirEntry {
    pub name: String,
    pub path: String,
    pub is_file: bool,
}

/// Index of the first entry from `k` on that is a file named like a log, or
/// the number of entries.
pub open spec fn first_log_entry(es: Seq<LogDirEntry>, k: int) -> int
    decreases es.len() - k,
{
    if k < 0 || k >= es.len() {
        es.len() as int
    } else if es[k].is_file && is_log_name(es[k].name@) {
        k
    } else {
        first_log_entry(es, k + 1)
    }
}

/// Index of the first present candidate from `k` on, or the number of
/// candidates.
pub open spec fn first_present(present: Seq<bool>, k: int) -> int
    decreases present.len() - k,
{
    if k < 0 || k >= present.len() {
        present.len() as int
    } else if present[k] {
        k
    } else {
        first_present(present, k + 1)
    }
}

/// The MySQL error log: the first preferred location that is a file, else the
/// first log file in MySQL's data directory, else in MySQL's directory.
pub open spec fn mysql_log_choice(
    candidates: Seq<Seq<char>>,
    present: Seq<bool>,
    data_entries: Seq<LogDirEntry>,
    mysql_entries: Seq<LogDirEntry>,
) -> Option<Seq<char>> {
    let p = first_present(present, 0);
    let d = first_log_entry(data_entries, 0);
    let m = first_log_entry(mysql_entries, 0);
    if p < present.len() && p < candidates.len() {
        Some(candidates[p])
    } else if d < data_entries.len() {
        Some(data_entries[d].path@)
    } else if m < mysql_entries.len() {
        Some(mysql_entries[m].path@)
    } else {
        None
    }
}

fn first_log_in(es: &Vec<LogDirEntry>) -> (r: usize)
    ensures
        r == first_log_entry(es@, 0),
{
    let mut k: usize = 0;
    while k < es.len()
        invariant
            k <= es@.len(),
            first_log_entry(es@, 0) == first_log_entry(es@, k as int),
        decreases es@.len() - k,
    {
        if es[k].is_file && crate::paths::is_log_file_name(es[k].name.as_str()) {
            return k;
        }
        k = k + 1;
    }
    k
}

/// Finds the MySQL error log (see `mysql_log_choice`): `present` tells which
/// of the preferred `candidates` are files; a directory that cannot be read
/// has no entries.
pub fn find_mysql_log_path(
    candidates: &Vec<String>,
    present: &Vec<bool>,
    data_entries: &Vec<LogDirEntry>,
    mysql_entries: &Vec<LogDirEntry>,
) -> (r: Option<String>)
    ensures
        crate::deployment::meta::opt_view(r) == mysql_log_choice(
            candidates@.map_values(|s: String| s@),
            present@,
            data_entries@,
            mysql_entries@,
        ),
{
    let mut p: usize = 0;
    while p < present.len() && !present[p]
        invariant
            p <= present@.len(),
            first_present(present@, 0) == first_present(present@, p as int),
        decreases present@.len() - p,
    {
        p = p + 1;
    }
    if p < present.len() && p < candidates.len() {
        return Some(candidates[p].clone());
    }
    let d = first_log_in(data_entries);
    if d < data_entries.len() {
        return Some(data_entries[d].path.clone());
    }
    let m = first_log_in(mysql_entries);
    if m < mysql_entries.len() {
        return Some(mysql_entries[m].path.clone());
    }
    None
}

} // verus!
