//! Searching the files of `htdocs`: the pattern, which files are looked at,
//! and how matches are collected.

use vstd::prelude::*;
use crate::text::{chars_of, trim, trim_end, ws_pred};

verus! {

/// A line of a file that matched.
pub struct SearchMatch {
    pub path: String,
    pub line_number: u64,
    pub line: String,
}

/// The search stops after this many matches.
pub const MAX_RESULTS: usize = 300;

/// Files larger than this (10 MB) are not searched.
pub const MAX_FILE_BYTES: u64 = 10_485_760;

/// A character with a meaning in a regular expression
/// (`regex_syntax::is_meta_character`).
pub open spec fn is_meta_character(c: char) -> bool {
    c == '\\' || c == '.' || c == '+' || c == '*' || c == '?' || c == '(' || c == ')' || c == '|'
        || c == '[' || c == ']' || c == '{' || c == '}' || c == '^' || c == '$' || c == '#' || c
        == '&' || c == '-' || c == '~'
}

/// `s` with a backslash before each meta character.
pub open spec fn regex_escaped(s: Seq<char>) -> Seq<char>
    decreases s.len(),
{
    if s.len() == 0 {
        Seq::empty()
    } else {
        regex_escaped(s.drop_last()) + if is_meta_character(s.last()) {
            seq!['\\', s.last()]
        } else {
            seq![s.last()]
        }
    }
}

/// `regex::escape`. Claimed: a backslash goes before each meta character, as
/// its source does.
#[verifier::external_body]
fn regex_escape(s: &str) -> (r: String)
    ensures
        r@ == regex_escaped(s@),
{
    regex::escape(s)
}

/// The pattern searched for: the trimmed query, escaped when it is meant
/// literally; none for a blank query.
pub open spec fn search_pattern_of(query: Seq<char>, literal: bool) -> Option<Seq<char>> {
    let t = trim(query);
    if t.len() == 0 {
        None
    } else if literal {
        Some(regex_escaped(t))
    } else {
        Some(t)
    }
}

/// The pattern for a query (see `search_pattern_of`).
pub fn search_pattern(query: &str, literal: bool) -> (r: Option<String>)
    ensures
        crate::deployment::meta::opt_view(r) == search_pattern_of(query@, literal),
{
    let t = crate::deployment::trimmed(query);
    if t.as_str().is_empty() {
        None
    } else if literal {
        Some(regex_escape(t.as_str()))
    } else {
        Some(t)
    }
}

#[verifier::external_type_specification]
#[verifier::external_body]
pub struct ExRegexMatcher(grep::regex::RegexMatcher);

#[verifier::external_type_specification]
#[verifier::external_body]
pub struct ExRegexError(grep::regex::Error);

/// Whether grep compiles `pattern` (with smart case) into a matcher.
pub uninterp spec fn pattern_compiles(pattern: Seq<char>) -> bool;

/// `grep::regex::RegexMatcherBuilder::new().case_smart(true).build`.
/// Claimed: whether it succeeds is named by `pattern_compiles`; the matcher
/// itself is opaque.
#[verifier::external_body]
fn compile_matcher(pattern: &str) -> (r: Result<grep::regex::RegexMatcher, grep::regex::Error>)
    ensures
        r is Ok <==> pattern_compiles(pattern@),
{
    grep::regex::RegexMatcherBuilder::new().case_smart(true).build(pattern)
}

/// The text of a pattern error (its `Display`). Nothing is claimed of it.
#[verifier::external_body]
fn pattern_error_text(e: &grep::regex::Error) -> (r: String) {
    format!("{e}")
}

/// The matcher for a query: none for a blank query, else the compiled
/// pattern, or the reason it does not compile.
pub fn build_search(query: &str, literal: bool) -> (r: Result<Option<grep::regex::RegexMatcher>, String>)
    ensures
        match search_pattern_of(query@, literal) {
            None => r matches Ok(None),
            Some(p) => (r matches Ok(Some(_)) <==> pattern_compiles(p)) && (r matches Err(e) ==> (
            exists|t: Seq<char>| e@ == "Invalid search pattern: "@ + t)) && !(r matches Ok(None)),
        },
{
    match search_pattern(query, literal) {
        None => Ok(None),
        Some(p) => match compile_matcher(p.as_str()) {
            Ok(m) => Ok(Some(m)),
            Err(e) => {
                let mut msg = String::from_str("Invalid search pattern: ");
                let t = pattern_error_text(&e);
                msg.append(t.as_str());
                Err(msg)
            },
        },
    }
}

/// The folders that are not searched.
pub open spec fn is_skipped_dir(lower_name: Seq<char>) -> bool {
    lower_name == ".git"@ || lower_name == "node_modules"@ || lower_name == "vendor"@ || lower_name
        == "dist"@
}

/// Whether the folder `name` is skipped: `.git`, `node_modules`, `vendor` or
/// `dist`, in any case.
pub fn skip_dir(name: &str) -> (r: bool)
    ensures
        r == is_skipped_dir(crate::unicode::lowercase(name@)),
        crate::text::all_ascii(name@) ==> r == is_skipped_dir(crate::text::ascii_lower(name@)),
{
    let lower = crate::unicode::to_lowercase(name);
    let v = chars_of(lower.as_str());
    crate::text::chars_eq(&v, &chars_of(".git")) || crate::text::chars_eq(
        &v,
        &chars_of("node_modules"),
    ) || crate::text::chars_eq(&v, &chars_of("vendor")) || crate::text::chars_eq(
        &v,
        &chars_of("dist"),
    )
}

/// Law: exactly four folders are left out of a search, by their lower-cased
/// name: `.git`, `node_modules`, `vendor` and `dist`; any other folder is
/// searched. For an ASCII name the case does not matter: `Vendor` and `VENDOR`
/// are left out like `vendor`.
pub proof fn law_skipped_folders(lower_name: Seq<char>, name: Seq<char>)
    ensures
        is_skipped_dir(lower_name) <==> (lower_name == ".git"@ || lower_name == "node_modules"@
            || lower_name == "vendor"@ || lower_name == "dist"@),
        crate::text::all_ascii(name) && crate::text::ascii_lower(name) == "vendor"@ ==> is_skipped_dir(
            crate::text::ascii_lower(name),
        ),
        crate::text::all_ascii(name) && crate::text::ascii_lower(name) == "node_modules"@
            ==> is_skipped_dir(crate::text::ascii_lower(name)),
        crate::text::all_ascii(name) && crate::text::ascii_lower(name) == ".git"@ ==> is_skipped_dir(
            crate::text::ascii_lower(name),
        ),
        crate::text::all_ascii(name) && crate::text::ascii_lower(name) == "dist"@ ==> is_skipped_dir(
            crate::text::ascii_lower(name),
        ),
{
}

/// Whether a file of `len` bytes is searched: not empty, at most 10 MB.
pub fn searchable_size(len: u64) -> (r: bool)
    ensures
        r == (len != 0 && len <= MAX_FILE_BYTES),
{
    len != 0 && len <= MAX_FILE_BYTES
}

/// Whether the search has all the matches it will take.
pub fn search_full(results: &Vec<SearchMatch>) -> (r: bool)
    ensures
        r == (results@.len() >= MAX_RESULTS),
{
    results.len() >= MAX_RESULTS
}

/// Records a match at `line_number` (0 when unknown) in `path`, whose line is
/// `bytes` decoded with trailing whitespace removed; says whether to go on.
pub fn record_match(results: &mut Vec<SearchMatch>, path: &str, line_number: Option<u64>, bytes: &[u8]) -> (go_on: bool)
    ensures
        final(results)@.len() == old(results)@.len() + 1,
        final(results)@.take(old(results)@.len() as int) == old(results)@,
        final(results)@.last().path@ == path@,
        final(results)@.last().line_number == (match line_number {
            Some(n) => n,
            None => 0,
        }),
        final(results)@.last().line@ == trim_end(crate::credentials::utf8_lossy(bytes@)),
        go_on == (final(results)@.len() < MAX_RESULTS),
{
    let text = crate::credentials::from_utf8_lossy(bytes);
    let v = chars_of(text.as_str());
    let mut end = v.len();
    while end > 0 && crate::text::is_whitespace(v[end - 1])
        invariant
            end <= v@.len(),
            forall|j: int| end <= j < v@.len() ==> crate::text::is_ws(#[trigger] v@[j]),
        decreases end,
    {
        end = end - 1;
    }
    proof {
        crate::text::lemma_trail_count_unique(v@, ws_pred(), v@.len() - end);
    }
    let line = crate::text::string_of_range(&v, 0, end);
    let ghost before = results@;
    results.push(
        SearchMatch {
            path: String::from_str(path),
            line_number: match line_number {
                Some(n) => n,
                None => 0,
            },
            line,
        },
    );
    assert(results@.take(before.len() as int) =~= before);
    results.len() < MAX_RESULTS
}

} // verus!
