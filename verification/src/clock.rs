//! Times as text, by chrono.

use vstd::prelude::*;
use crate::deployment::meta::opt_view;

verus! {

/// The text of a time given in seconds since the Unix epoch, in UTC, as
/// `%Y-%m-%d %H:%M:%S`, when chrono can represent it.
pub uninterp spec fn second_text(secs: i64) -> Option<Seq<char>>;

/// `chrono::DateTime::from_timestamp` formatted with `%Y-%m-%d %H:%M:%S`.
/// Claimed: the result is named by `second_text`.
#[verifier::external_body]
pub(crate) fn format_second(secs: i64) -> (r: Option<String>)
    ensures
        opt_view(r) == second_text(secs),
{
    match chrono::DateTime::from_timestamp(secs, 0) {
        Some(t) => Some(t.format("%Y-%m-%d %H:%M:%S").to_string()),
        None => None,
    }
}

/// The modification time shown for a file: the second of `secs` (seconds
/// since the epoch, read as `i64`), or nothing.
pub open spec fn file_time_text(secs: Option<u64>) -> Seq<char> {
    match secs {
        Some(s) => match second_text(s as i64) {
            Some(t) => t,
            None => Seq::empty(),
        },
        None => Seq::empty(),
    }
}

/// The modification time shown for a file (see `file_time_text`).
pub fn file_time(secs: Option<u64>) -> (r: String)
    ensures
        r@ == file_time_text(secs),
{
    match secs {
        Some(s) => match format_second(s as i64) {
            Some(t) => t,
            None => String::new(),
        },
        None => String::new(),
    }
}

/// The local time as `%Y%m%d_%H%M%S` (`chrono::Local::now`). Nothing is
/// claimed of it.
#[verifier::external_body]
pub(crate) fn local_stamp() -> (r: String) {
    chrono::Local::now().format("%Y%m%d_%H%M%S").to_string()
}

} // verus!
