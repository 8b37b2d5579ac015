//! Parsing of Apache and MySQL/MariaDB error logs into `LogLine`s.

use vstd::prelude::*;
use crate::text::{
    boundary_index, boundary_index_exec, byte_len, chars_of, contains, contains_exec, has_char,
    has_char_exec, in_set, is_char_boundary, lemma_byte_len_monotone, lemma_byte_len_take_step,
    lemma_line_spans_bounds, line_spans, line_spans_exec, lines, skip_set, skip_set_back,
    string_of, string_of_range, trim_end_by, trim_start_by, utf8_width_exec,
};
use crate::unicode::{lowercase, to_lowercase};

verus! {

/// One parsed log line.
pub struct LogLine {
    pub timestamp: String,
    pub level: String,
    pub message: String,
    pub source: String,
}

/// Length of the prefix from which a timestamp is taken, in UTF-8 bytes.
pub const TIMESTAMP_PREFIX_BYTES: usize = 20;

/// A line can be looked at for a timestamp without cutting a character in two.
pub open spec fn timestamp_safe(line: Seq<char>) -> bool {
    byte_len(line) > 20 ==> is_char_boundary(line, 20)
}

/// The timestamp taken from the start of a line: the first 20 bytes, when the
/// line is longer than that and they hold a `:` or a `-`, with trailing `]` and
/// then leading `[` removed.
pub open spec fn timestamp_of(line: Seq<char>) -> Option<Seq<char>> {
    if byte_len(line) > 20 {
        let candidate = line.take(boundary_index(line, 20));
        if has_char(candidate, ':') || has_char(candidate, '-') {
            Some(
                trim_start_by(
                    trim_end_by(candidate, in_set(seq![']'])),
                    in_set(seq!['[']),
                ),
            )
        } else {
            None
        }
    } else {
        None
    }
}

/// Level of an Apache log line, judged from its lower-cased text.
pub open spec fn apache_level(lower: Seq<char>) -> Seq<char> {
    if contains(lower, "[error]"@) || contains(lower, "error"@) {
        "ERROR"@
    } else if contains(lower, "[warn]"@) || contains(lower, ":warn]"@) || contains(
        lower,
        "warning"@,
    ) {
        "WARN"@
    } else if contains(lower, "[info]"@) {
        "INFO"@
    } else if contains(lower, "[debug]"@) {
        "DEBUG"@
    } else {
        "INFO"@
    }
}

/// Law: the level of an Apache line follows its markers, checked in this
/// order: any `error` (so also `[error]`) makes it ERROR; else `[warn]`,
/// `:warn]` or `warning` makes it WARN; else `[info]` INFO; else `[debug]`
/// DEBUG; a line with none of them is INFO.
pub proof fn law_apache_level_markers(lower: Seq<char>)
    ensures
        contains(lower, "error"@) ==> apache_level(lower) == "ERROR"@,
        contains(lower, "[error]"@) ==> apache_level(lower) == "ERROR"@,
        !contains(lower, "error"@) && (contains(lower, "[warn]"@) || contains(lower, ":warn]"@)
            || contains(lower, "warning"@)) ==> apache_level(lower) == "WARN"@,
        !contains(lower, "error"@) && !contains(lower, "[warn]"@) && !contains(lower, ":warn]"@)
            && !contains(lower, "warning"@) && contains(lower, "[info]"@) ==> apache_level(lower)
            == "INFO"@,
        !contains(lower, "error"@) && !contains(lower, "[warn]"@) && !contains(lower, ":warn]"@)
            && !contains(lower, "warning"@) && !contains(lower, "[info]"@) && contains(
            lower,
            "[debug]"@,
        ) ==> apache_level(lower) == "DEBUG"@,
        !contains(lower, "error"@) && !contains(lower, "[warn]"@) && !contains(lower, ":warn]"@)
            && !contains(lower, "warning"@) && !contains(lower, "[info]"@) && !contains(
            lower,
            "[debug]"@,
        ) ==> apache_level(lower) == "INFO"@,
        apache_level(lower) == "ERROR"@ || apache_level(lower) == "WARN"@ || apache_level(lower)
            == "INFO"@ || apache_level(lower) == "DEBUG"@,
{
    lemma_error_tag_says_error(lower);
}

/// Law: the level of a MySQL line follows its markers: any `error` makes it
/// ERROR; else `[warn]`, `:warn]` or `warning` makes it WARN; else INFO.
pub proof fn law_mysql_level_markers(lower: Seq<char>)
    ensures
        contains(lower, "error"@) ==> mysql_level(lower) == "ERROR"@,
        contains(lower, "[error]"@) ==> mysql_level(lower) == "ERROR"@,
        !contains(lower, "error"@) && (contains(lower, "[warn]"@) || contains(lower, ":warn]"@)
            || contains(lower, "warning"@)) ==> mysql_level(lower) == "WARN"@,
        !contains(lower, "error"@) && !contains(lower, "[warn]"@) && !contains(lower, ":warn]"@)
            && !contains(lower, "warning"@) ==> mysql_level(lower) == "INFO"@,
{
    lemma_error_tag_says_error(lower);
}

/// A line that holds `[error]` holds `error`.
proof fn lemma_error_tag_says_error(lower: Seq<char>)
    ensures
        contains(lower, "[error]"@) ==> contains(lower, "error"@),
{
    reveal_strlit("[error]");
    reveal_strlit("error");
    if contains(lower, "[error]"@) {
        let k = choose|k: int| crate::text::matches_at(lower, "[error]"@, k);
        assert(lower.subrange(k + 1, k + 6) =~= "[error]"@.subrange(1, 6));
        assert("[error]"@.subrange(1, 6) =~= "error"@);
        assert(crate::text::matches_at(lower, "error"@, k + 1));
    }
}

/// Level of a MySQL log line, judged from its lower-cased text.
pub open spec fn mysql_level(lower: Seq<char>) -> Seq<char> {
    if contains(lower, "[error]"@) || contains(lower, "error"@) {
        "ERROR"@
    } else if contains(lower, "[warn]"@) || contains(lower, ":warn]"@) || contains(
        lower,
        "warning"@,
    ) {
        "WARN"@
    } else {
        "INFO"@
    }
}

/// The lines that are parsed: all of them, or the newest `max` in their order.
pub open spec fn log_window(content: Seq<char>, max_lines: Option<usize>) -> Seq<Seq<char>> {
    let all = lines(content);
    match max_lines {
        Some(max) => {
            let n = if max < all.len() {
                max as int
            } else {
                all.len() as int
            };
            all.subrange(all.len() - n, all.len() as int)
        },
        None => all,
    }
}

/// Every parsed line can be looked at for a timestamp.
pub open spec fn log_parsable(content: Seq<char>, max_lines: Option<usize>) -> bool {
    forall|i: int|
        0 <= i < log_window(content, max_lines).len() ==> timestamp_safe(
            #[trigger] log_window(content, max_lines)[i],
        )
}

/// The view of a parsed line.
pub open spec fn line_view(l: LogLine) -> (Seq<char>, Seq<char>, Seq<char>, Seq<char>) {
    (l.timestamp@, l.level@, l.message@, l.source@)
}

/// What a log line becomes: its timestamp (empty when it has none), its level,
/// the line itself and the source name.
pub open spec fn parsed_line(line: Seq<char>, apache: bool) -> (
    Seq<char>,
    Seq<char>,
    Seq<char>,
    Seq<char>,
) {
    let ts = match timestamp_of(line) {
        Some(t) => t,
        None => Seq::empty(),
    };
    if apache {
        (ts, apache_level(lowercase(line)), line, "Apache"@)
    } else {
        (ts, mysql_level(lowercase(line)), line, "MySQL"@)
    }
}

/// The level that `apache_level` gives for a lower-cased line.
pub fn apache_level_of(lower: &str) -> (r: &'static str)
    ensures
        r@ == apache_level(lower@),
{
    let l = chars_of(lower);
    if contains_exec(&l, &chars_of("[error]")) || contains_exec(&l, &chars_of("error")) {
        "ERROR"
    } else if contains_exec(&l, &chars_of("[warn]")) || contains_exec(&l, &chars_of(":warn]"))
        || contains_exec(&l, &chars_of("warning")) {
        "WARN"
    } else if contains_exec(&l, &chars_of("[info]")) {
        "INFO"
    } else if contains_exec(&l, &chars_of("[debug]")) {
        "DEBUG"
    } else {
        "INFO"
    }
}

/// The level that `mysql_level` gives for a lower-cased line.
pub fn mysql_level_of(lower: &str) -> (r: &'static str)
    ensures
        r@ == mysql_level(lower@),
{
    let l = chars_of(lower);
    if contains_exec(&l, &chars_of("[error]")) || contains_exec(&l, &chars_of("error")) {
        "ERROR"
    } else if contains_exec(&l, &chars_of("[warn]")) || contains_exec(&l, &chars_of(":warn]"))
        || contains_exec(&l, &chars_of("warning")) {
        "WARN"
    } else {
        "INFO"
    }
}

fn timestamp_of_chars(v: &[char]) -> (r: Option<String>)
    requires
        timestamp_safe(v@),
    ensures
        r matches Some(t) ==> timestamp_of(v@) == Some(t@),
        r is None ==> timestamp_of(v@) is None,
{
    let mut bytes: usize = 0;
    let mut k: usize = 0;
    let mut big = false;
    proof {
        lemma_byte_len_monotone(v@, 0);
    }
    // Whether the line is longer than 20 bytes.
    assert(v@.take(0) =~= Seq::<char>::empty());
    while k < v.len() && bytes <= TIMESTAMP_PREFIX_BYTES
        invariant
            k <= v@.len(),
            bytes == byte_len(v@.take(k as int)),
            bytes <= 20 + 4,
        decreases v@.len() - k,
    {
        proof {
            lemma_byte_len_take_step(v@, k as int);
        }
        bytes = bytes + utf8_width_exec(v[k]);
        k = k + 1;
    }
    proof {
        if k == v@.len() {
            assert(v@.take(k as int) =~= v@);
        } else {
            lemma_byte_len_monotone(v@, k as int);
        }
    }
    if bytes <= TIMESTAMP_PREFIX_BYTES {
        assert(byte_len(v@) <= 20) by {
            assert(v@.take(k as int) =~= v@);
        }
        return None;
    }
    let idx = match boundary_index_exec(v, TIMESTAMP_PREFIX_BYTES) {
        Some(i) => i,
        None => {
            return None;
        },
    };
    let ghost cand = v@.take(idx as int);
    assert(v@.subrange(0, idx as int) =~= cand);
    if !(has_char_exec(&v[0..idx], ':') || has_char_exec(&v[0..idx], '-')) {
        return None;
    }
    let close = [']'];
    let open = ['['];
    let e = skip_set_back(v, 0, idx, &close);
    let s = skip_set(v, 0, e, &open);
    proof {
        let t1 = trim_end_by(cand, in_set(seq![']']));
        assert(close@ =~= seq![']']);
        assert(open@ =~= seq!['[']);
        assert(t1 =~= v@.subrange(0, e as int));
        assert(trim_start_by(t1, in_set(seq!['['])) =~= v@.subrange(s as int, e as int));
    }
    Some(string_of_range(v, s, e))
}

/// The timestamp at the start of `line` (see `timestamp_of`).
pub fn extract_timestamp(line: &str) -> (r: Option<String>)
    requires
        timestamp_safe(line@),
    ensures
        r matches Some(t) ==> timestamp_of(line@) == Some(t@),
        r is None ==> timestamp_of(line@) is None,
{
    let v = chars_of(line);
    timestamp_of_chars(&v)
}

/// Whether every line that would be parsed can be looked at for a timestamp;
/// the parse functions require it.
pub fn log_is_parsable(content: &str, max_lines: Option<usize>) -> (b: bool)
    ensures
        b == log_parsable(content@, max_lines),
{
    let v = chars_of(content);
    let spans = line_spans_exec(&v);
    let first = window_start(spans.len(), max_lines);
    let mut i = first;
    while i < spans.len()
        invariant
            first <= i <= spans@.len(),
            v@ == content@,
            spans@.len() == line_spans(v@).len(),
            forall|k: int|
                0 <= k < spans@.len() ==> (#[trigger] spans@[k]).0 == line_spans(v@)[k].0
                    && spans@[k].1 == line_spans(v@)[k].1,
            forall|k: int|
                0 <= k < spans@.len() ==> (#[trigger] spans@[k]).0 <= spans@[k].1 <= v@.len(),
            first == spans@.len() - log_window(content@, max_lines).len(),
            forall|k: int|
                first <= k < i ==> timestamp_safe(
                    #[trigger] log_window(content@, max_lines)[k - first],
                ),
        decreases spans@.len() - i,
    {
        let (a, b) = spans[i];
        let line = &v[a..b];
        proof {
            lemma_window_index(content@, max_lines, i - first);
            assert(line@ == log_window(content@, max_lines)[i - first]);
        }
        if !line_timestamp_safe(line) {
            return false;
        }
        i = i + 1;
    }
    assert forall|k: int| 0 <= k < log_window(content@, max_lines).len() implies timestamp_safe(
        #[trigger] log_window(content@, max_lines)[k],
    ) by {
        assert(log_window(content@, max_lines)[(k + first) - first] == log_window(
            content@,
            max_lines,
        )[k]);
    }
    true
}

fn line_timestamp_safe(v: &[char]) -> (b: bool)
    ensures
        b == timestamp_safe(v@),
{
    let mut bytes: usize = 0;
    let mut k: usize = 0;
    assert(v@.take(0) =~= Seq::<char>::empty());
    while k < v.len() && bytes <= TIMESTAMP_PREFIX_BYTES
        invariant
            k <= v@.len(),
            bytes == byte_len(v@.take(k as int)),
            bytes <= 20 + 4,
        decreases v@.len() - k,
    {
        proof {
            lemma_byte_len_take_step(v@, k as int);
        }
        bytes = bytes + utf8_width_exec(v[k]);
        k = k + 1;
    }
    proof {
        if k == v@.len() {
            assert(v@.take(k as int) =~= v@);
        } else {
            lemma_byte_len_monotone(v@, k as int);
        }
    }
    if bytes <= TIMESTAMP_PREFIX_BYTES {
        assert(v@.take(k as int) =~= v@);
        return true;
    }
    boundary_index_exec(v, TIMESTAMP_PREFIX_BYTES).is_some()
}

/// Index of the first line that is parsed, out of `n` lines.
fn window_start(n: usize, max_lines: Option<usize>) -> (r: usize)
    ensures
        r <= n,
        max_lines is None ==> r == 0,
        max_lines matches Some(m) ==> r == if m < n {
            n - m
        } else {
            0
        },
{
    match max_lines {
        Some(m) => if m < n {
            n - m
        } else {
            0
        },
        None => 0,
    }
}

proof fn lemma_window_index(content: Seq<char>, max_lines: Option<usize>, k: int)
    requires
        0 <= k < log_window(content, max_lines).len(),
    ensures
        log_window(content, max_lines).len() <= lines(content).len(),
        log_window(content, max_lines)[k] == lines(content)[lines(content).len() - log_window(
            content,
            max_lines,
        ).len() + k],
        lines(content).len() == line_spans(content).len(),
        lines(content)[lines(content).len() - log_window(content, max_lines).len() + k]
            == content.subrange(
            line_spans(content)[lines(content).len() - log_window(content, max_lines).len()
                + k].0,
            line_spans(content)[lines(content).len() - log_window(content, max_lines).len()
                + k].1,
        ),
{
}

fn parse_log(content: &str, max_lines: Option<usize>, apache: bool) -> (r: Vec<LogLine>)
    requires
        log_parsable(content@, max_lines),
    ensures
        r@.len() == log_window(content@, max_lines).len(),
        forall|i: int|
            0 <= i < r@.len() ==> line_view(#[trigger] r@[i]) == parsed_line(
                log_window(content@, max_lines)[i],
                apache,
            ),
{
    let v = chars_of(content);
    let spans = line_spans_exec(&v);
    let first = window_start(spans.len(), max_lines);
    let mut out: Vec<LogLine> = Vec::new();
    let mut i = first;
    proof {
        lemma_line_spans_bounds(v@);
    }
    while i < spans.len()
        invariant
            first <= i <= spans@.len(),
            v@ == content@,
            log_parsable(content@, max_lines),
            spans@.len() == line_spans(v@).len(),
            forall|k: int|
                0 <= k < spans@.len() ==> (#[trigger] spans@[k]).0 == line_spans(v@)[k].0
                    && spans@[k].1 == line_spans(v@)[k].1,
            forall|k: int|
                0 <= k < spans@.len() ==> (#[trigger] spans@[k]).0 <= spans@[k].1 <= v@.len(),
            first == spans@.len() - log_window(content@, max_lines).len(),
            out@.len() == i - first,
            forall|k: int|
                0 <= k < out@.len() ==> line_view(#[trigger] out@[k]) == parsed_line(
                    log_window(content@, max_lines)[k],
                    apache,
                ),
        decreases spans@.len() - i,
    {
        let (a, b) = spans[i];
        let line = &v[a..b];
        proof {
            lemma_window_index(content@, max_lines, i - first);
            assert(line@ == log_window(content@, max_lines)[i - first]);
        }
        let message = string_of(line);
        let lower = to_lowercase(message.as_str());
        let level = if apache {
            apache_level_of(lower.as_str())
        } else {
            mysql_level_of(lower.as_str())
        };
        let timestamp = match timestamp_of_chars(line) {
            Some(t) => t,
            None => String::new(),
        };
        let source = if apache {
            "Apache"
        } else {
            "MySQL"
        };
        out.push(
            LogLine {
                timestamp,
                level: string_of(&chars_of(level)),
                message,
                source: string_of(&chars_of(source)),
            },
        );
        i = i + 1;
    }
    out
}

/// Parses an Apache error log: all lines, or the newest `max_lines` of them in
/// file order, each with its timestamp, level and the source `Apache`.
pub fn parse_apache_log(content: &str, max_lines: Option<usize>) -> (r: Vec<LogLine>)
    requires
        log_parsable(content@, max_lines),
    ensures
        r@.len() == log_window(content@, max_lines).len(),
        forall|i: int|
            0 <= i < r@.len() ==> line_view(#[trigger] r@[i]) == parsed_line(
                log_window(content@, max_lines)[i],
                true,
            ),
{
    parse_log(content, max_lines, true)
}

/// Parses a MySQL/MariaDB error log: all lines, or the newest `max_lines` of
/// them in file order, each with its timestamp, level and the source `MySQL`.
pub fn parse_mysql_log(content: &str, max_lines: Option<usize>) -> (r: Vec<LogLine>)
    requires
        log_parsable(content@, max_lines),
    ensures
        r@.len() == log_window(content@, max_lines).len(),
        forall|i: int|
            0 <= i < r@.len() ==> line_view(#[trigger] r@[i]) == parsed_line(
                log_window(content@, max_lines)[i],
                false,
            ),
{
    parse_log(content, max_lines, false)
}

} // verus!
