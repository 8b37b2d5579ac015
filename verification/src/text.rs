use vstd::prelude::*;

verus! {

// ---------------------------------------------------------------------------
// Character classes
// ---------------------------------------------------------------------------

/// Unicode `White_Space`, the set that `char::is_whitespace` and `str::trim` use.
pub open spec fn is_ws(c: char) -> bool {
    let v = c as u32;
    (9 <= v && v <= 13) || v == 32 || v == 0x85 || v == 0xA0 || v == 0x1680 || (0x2000 <= v
        && v <= 0x200A) || v == 0x2028 || v == 0x2029 || v == 0x202F || v == 0x205F || v
        == 0x3000
}

pub fn is_whitespace(c: char) -> (b: bool)
    ensures
        b == is_ws(c),
{
    let v = c as u32;
    (9 <= v && v <= 13) || v == 32 || v == 0x85 || v == 0xA0 || v == 0x1680 || (0x2000 <= v
        && v <= 0x200A) || v == 0x2028 || v == 0x2029 || v == 0x202F || v == 0x205F || v
        == 0x3000
}

pub open spec fn is_ascii_alnum(c: char) -> bool {
    ('0' <= c && c <= '9') || ('a' <= c && c <= 'z') || ('A' <= c && c <= 'Z')
}

pub fn is_ascii_alphanumeric(c: char) -> (b: bool)
    ensures
        b == is_ascii_alnum(c),
{
    ('0' <= c && c <= '9') || ('a' <= c && c <= 'z') || ('A' <= c && c <= 'Z')
}

pub open spec fn is_ascii_char(c: char) -> bool {
    (c as u32) < 128
}

pub open spec fn lower_char(c: char) -> char {
    if 'A' <= c && c <= 'Z' {
        ((c as u32) + 32) as char
    } else {
        c
    }
}

pub open spec fn upper_char(c: char) -> char {
    if 'a' <= c && c <= 'z' {
        ((c as u32) - 32) as char
    } else {
        c
    }
}

/// ASCII lower-casing of every character; other characters unchanged.
pub open spec fn ascii_lower(s: Seq<char>) -> Seq<char> {
    s.map_values(|c: char| lower_char(c))
}

pub open spec fn ascii_upper(s: Seq<char>) -> Seq<char> {
    s.map_values(|c: char| upper_char(c))
}

pub open spec fn all_ascii(s: Seq<char>) -> bool {
    forall|i: int| 0 <= i < s.len() ==> is_ascii_char(#[trigger] s[i])
}

// ---------------------------------------------------------------------------
// Conversions between `str`, `String` and character vectors
// ---------------------------------------------------------------------------

/// The characters of `s`, in order.
pub fn chars_of(s: &str) -> (v: Vec<char>)
    ensures
        v@ == s@,
{
    let mut v: Vec<char> = Vec::new();
    for c in it: s.chars()
        invariant
            v@ == it.seq().take(it.index() as int),
            it.seq() == s@,
    {
        v.push(c);
    }
    v
}

/// Appends one character to a string (`String::push`).
#[verifier::external_body]
fn push_char(s: &mut String, c: char)
    ensures
        final(s)@ == old(s)@.push(c),
{
    s.push(c);
}

/// A string holding exactly the characters of `v`.
pub fn string_of(v: &[char]) -> (s: String)
    ensures
        s@ == v@,
{
    let mut s = String::new();
    let mut i: usize = 0;
    while i < v.len()
        invariant
            i <= v@.len(),
            s@ == v@.take(i as int),
        decreases v@.len() - i,
    {
        push_char(&mut s, v[i]);
        assert(v@.take(i as int).push(v@[i as int]) =~= v@.take(i + 1));
        i = i + 1;
    }
    assert(v@.take(v@.len() as int) =~= v@);
    s
}

/// A string holding the characters `v[start..end]`.
pub fn string_of_range(v: &[char], start: usize, end: usize) -> (s: String)
    requires
        start <= end <= v@.len(),
    ensures
        s@ == v@.subrange(start as int, end as int),
{
    let mut s = String::new();
    let mut i: usize = start;
    while i < end
        invariant
            start <= i <= end <= v@.len(),
            s@ == v@.subrange(start as int, i as int),
        decreases end - i,
    {
        push_char(&mut s, v[i]);
        assert(v@.subrange(start as int, i as int).push(v@[i as int]) =~= v@.subrange(
            start as int,
            i + 1,
        ));
        i = i + 1;
    }
    s
}

/// Appends `v[start..end]` to `s`.
pub fn push_range(s: &mut String, v: &[char], start: usize, end: usize)
    requires
        start <= end <= v@.len(),
    ensures
        final(s)@ == old(s)@ + v@.subrange(start as int, end as int),
{
    let ghost s0 = s@;
    let mut i: usize = start;
    while i < end
        invariant
            start <= i <= end <= v@.len(),
            s@ == s0 + v@.subrange(start as int, i as int),
        decreases end - i,
    {
        push_char(s, v[i]);
        assert(s0 + v@.subrange(start as int, i as int).push(v@[i as int]) =~= s0
            + v@.subrange(start as int, i + 1));
        i = i + 1;
    }
}

/// Appends the characters of `t` to `s`.
pub fn push_str(s: &mut String, t: &str)
    ensures
        final(s)@ == old(s)@ + t@,
{
    let v = chars_of(t);
    push_range(s, &v, 0, v.len());
    assert(v@.subrange(0, v@.len() as int) =~= v@);
}

/// Appends one character to `s`.
pub fn push(s: &mut String, c: char)
    ensures
        final(s)@ == old(s)@.push(c),
{
    push_char(s, c);
}

// ---------------------------------------------------------------------------
// Prefixes, suffixes, substrings
// ---------------------------------------------------------------------------

pub open spec fn starts_with(s: Seq<char>, p: Seq<char>) -> bool {
    p.len() <= s.len() && s.subrange(0, p.len() as int) == p
}

pub open spec fn ends_with(s: Seq<char>, p: Seq<char>) -> bool {
    p.len() <= s.len() && s.subrange(s.len() - p.len(), s.len() as int) == p
}

pub open spec fn matches_at(s: Seq<char>, p: Seq<char>, i: int) -> bool {
    0 <= i && i + p.len() <= s.len() && s.subrange(i, i + p.len()) == p
}

pub open spec fn contains(s: Seq<char>, p: Seq<char>) -> bool {
    exists|i: int| #[trigger] matches_at(s, p, i)
}

pub open spec fn has_char(s: Seq<char>, c: char) -> bool {
    exists|i: int| 0 <= i < s.len() && s[i] == c
}

/// Whether `p` occurs in `s` at position `i`.
pub fn matches_at_exec(s: &[char], p: &[char], i: usize) -> (b: bool)
    ensures
        b == matches_at(s@, p@, i as int),
{
    if i > s.len() || p.len() > s.len() - i {
        return false;
    }
    let mut k: usize = 0;
    while k < p.len()
        invariant
            i + p@.len() <= s@.len(),
            s@.len() <= usize::MAX,
            k <= p@.len(),
            forall|j: int| 0 <= j < k ==> s@[i + j] == p@[j],
        decreases p@.len() - k,
    {
        if s[i + k] != p[k] {
            assert(s@.subrange(i as int, i + p@.len())[k as int] != p@[k as int]);
            return false;
        }
        k = k + 1;
    }
    assert(s@.subrange(i as int, i + p@.len()) =~= p@);
    true
}

pub fn starts_with_exec(s: &[char], p: &[char]) -> (b: bool)
    ensures
        b == starts_with(s@, p@),
{
    matches_at_exec(s, p, 0)
}

/// Whether `p` occurs anywhere in `s`.
pub fn contains_exec(s: &[char], p: &[char]) -> (b: bool)
    ensures
        b == contains(s@, p@),
{
    if p.len() > s.len() {
        assert(forall|i: int| !#[trigger] matches_at(s@, p@, i));
        return false;
    }
    let last = s.len() - p.len();
    let mut i: usize = 0;
    while i < last
        invariant
            p@.len() <= s@.len(),
            last == s@.len() - p@.len(),
            i <= last,
            forall|j: int| 0 <= j < i ==> !#[trigger] matches_at(s@, p@, j),
        decreases last - i,
    {
        if matches_at_exec(s, p, i) {
            return true;
        }
        i = i + 1;
    }
    let b = matches_at_exec(s, p, last);
    proof {
        if !b {
            assert forall|j: int| !#[trigger] matches_at(s@, p@, j) by {
                if 0 <= j < last {
                } else if j == last {
                } else {
                }
            }
        }
    }
    b
}

/// Whether the character `c` occurs in `s`.
pub fn has_char_exec(s: &[char], c: char) -> (b: bool)
    ensures
        b == has_char(s@, c),
{
    let mut i: usize = 0;
    while i < s.len()
        invariant
            i <= s@.len(),
            forall|j: int| 0 <= j < i ==> s@[j] != c,
        decreases s@.len() - i,
    {
        if s[i] == c {
            return true;
        }
        i = i + 1;
    }
    false
}

/// Whether `s` and `t` hold the same characters.
pub fn chars_eq(s: &[char], t: &[char]) -> (b: bool)
    ensures
        b == (s@ == t@),
{
    if s.len() != t.len() {
        return false;
    }
    let b = matches_at_exec(s, t, 0);
    proof {
        if b {
            assert(s@ =~= t@);
        }
        if s@ == t@ {
            assert(s@.subrange(0, t@.len() as int) =~= t@);
        }
    }
    b
}

// ---------------------------------------------------------------------------
// Trimming
// ---------------------------------------------------------------------------

/// Number of leading characters of `s` for which `p` holds.
pub open spec fn lead_count(s: Seq<char>, p: spec_fn(char) -> bool) -> int
    decreases s.len(),
{
    if s.len() > 0 && p(s[0]) {
        1 + lead_count(s.subrange(1, s.len() as int), p)
    } else {
        0
    }
}

/// Number of trailing characters of `s` for which `p` holds.
pub open spec fn trail_count(s: Seq<char>, p: spec_fn(char) -> bool) -> int
    decreases s.len(),
{
    if s.len() > 0 && p(s.last()) {
        1 + trail_count(s.drop_last(), p)
    } else {
        0
    }
}

pub open spec fn trim_start_by(s: Seq<char>, p: spec_fn(char) -> bool) -> Seq<char> {
    s.subrange(lead_count(s, p), s.len() as int)
}

pub open spec fn trim_end_by(s: Seq<char>, p: spec_fn(char) -> bool) -> Seq<char> {
    s.subrange(0, s.len() - trail_count(s, p))
}

pub open spec fn trim_by(s: Seq<char>, p: spec_fn(char) -> bool) -> Seq<char> {
    trim_end_by(trim_start_by(s, p), p)
}

pub open spec fn ws_pred() -> spec_fn(char) -> bool {
    |c: char| is_ws(c)
}

pub open spec fn in_set(set: Seq<char>) -> spec_fn(char) -> bool {
    |c: char| set.contains(c)
}

/// `str::trim_start`.
pub open spec fn trim_start(s: Seq<char>) -> Seq<char> {
    trim_start_by(s, ws_pred())
}

/// `str::trim_end`.
pub open spec fn trim_end(s: Seq<char>) -> Seq<char> {
    trim_end_by(s, ws_pred())
}

/// `str::trim`.
pub open spec fn trim(s: Seq<char>) -> Seq<char> {
    trim_by(s, ws_pred())
}

pub proof fn lemma_lead_count(s: Seq<char>, p: spec_fn(char) -> bool)
    ensures
        0 <= lead_count(s, p) <= s.len(),
        forall|j: int| 0 <= j < lead_count(s, p) ==> p(#[trigger] s[j]),
        lead_count(s, p) < s.len() ==> !p(s[lead_count(s, p)]),
    decreases s.len(),
{
    if s.len() > 0 && p(s[0]) {
        let t = s.subrange(1, s.len() as int);
        lemma_lead_count(t, p);
        assert forall|j: int| 0 <= j < lead_count(s, p) implies p(#[trigger] s[j]) by {
            if j > 0 {
                assert(s[j] == t[j - 1]);
            }
        }
    }
}

pub proof fn lemma_trail_count(s: Seq<char>, p: spec_fn(char) -> bool)
    ensures
        0 <= trail_count(s, p) <= s.len(),
        forall|j: int| s.len() - trail_count(s, p) <= j < s.len() ==> p(#[trigger] s[j]),
        trail_count(s, p) < s.len() ==> !p(s[s.len() - trail_count(s, p) - 1]),
    decreases s.len(),
{
    if s.len() > 0 && p(s.last()) {
        let t = s.drop_last();
        lemma_trail_count(t, p);
        assert forall|j: int| s.len() - trail_count(s, p) <= j < s.len() implies p(
            #[trigger] s[j],
        ) by {
            if j < s.len() - 1 {
                assert(s[j] == t[j]);
            }
        }
        if trail_count(s, p) < s.len() {
            assert(s[s.len() - trail_count(s, p) - 1] == t[t.len() - trail_count(t, p) - 1]);
        }
    }
}

/// The leading count is determined by its defining property.
pub proof fn lemma_lead_count_unique(s: Seq<char>, p: spec_fn(char) -> bool, k: int)
    requires
        0 <= k <= s.len(),
        forall|j: int| 0 <= j < k ==> p(#[trigger] s[j]),
        k < s.len() ==> !p(s[k]),
    ensures
        lead_count(s, p) == k,
    decreases s.len(),
{
    if k > 0 {
        let t = s.subrange(1, s.len() as int);
        assert forall|j: int| 0 <= j < k - 1 implies p(#[trigger] t[j]) by {
            assert(t[j] == s[j + 1]);
        }
        if k - 1 < t.len() {
            assert(t[k - 1] == s[k]);
        }
        lemma_lead_count_unique(t, p, k - 1);
    }
}

pub proof fn lemma_trail_count_unique(s: Seq<char>, p: spec_fn(char) -> bool, k: int)
    requires
        0 <= k <= s.len(),
        forall|j: int| s.len() - k <= j < s.len() ==> p(#[trigger] s[j]),
        k < s.len() ==> !p(s[s.len() - k - 1]),
    ensures
        trail_count(s, p) == k,
    decreases s.len(),
{
    if k > 0 {
        let t = s.drop_last();
        assert(p(s[s.len() - 1]));
        assert forall|j: int| t.len() - (k - 1) <= j < t.len() implies p(#[trigger] t[j]) by {
            assert(t[j] == s[j]);
        }
        lemma_trail_count_unique(t, p, k - 1);
    }
}

/// Start and end of `s` with leading and trailing whitespace removed.
pub fn trim_bounds(s: &[char]) -> (r: (usize, usize))
    ensures
        r.0 <= r.1 <= s@.len(),
        s@.subrange(r.0 as int, r.1 as int) == trim(s@),
        r.0 == lead_count(s@, ws_pred()),
{
    let mut i: usize = 0;
    while i < s.len() && is_whitespace(s[i])
        invariant
            i <= s@.len(),
            forall|j: int| 0 <= j < i ==> is_ws(#[trigger] s@[j]),
        decreases s@.len() - i,
    {
        i = i + 1;
    }
    proof {
        lemma_lead_count_unique(s@, ws_pred(), i as int);
    }
    let mut e: usize = s.len();
    while e > i && is_whitespace(s[e - 1])
        invariant
            i <= e <= s@.len(),
            forall|j: int| e <= j < s@.len() ==> is_ws(#[trigger] s@[j]),
        decreases e,
    {
        e = e - 1;
    }
    proof {
        let t = s@.subrange(i as int, s@.len() as int);
        assert forall|j: int| t.len() - (s@.len() - e) <= j < t.len() implies is_ws(
            #[trigger] t[j],
        ) by {
            assert(t[j] == s@[j + i]);
        }
        if s@.len() - e < t.len() {
            assert(t[t.len() - (s@.len() - e) - 1] == s@[e - 1]);
        }
        lemma_trail_count_unique(t, ws_pred(), s@.len() - e);
        assert(s@.subrange(i as int, e as int) =~= t.subrange(0, t.len() - (s@.len() - e)));
    }
    (i, e)
}

/// Start of `s[from..to]` after dropping leading characters that are in `set`.
pub fn skip_set(s: &[char], from: usize, to: usize, set: &[char]) -> (r: usize)
    requires
        from <= to <= s@.len(),
    ensures
        from <= r <= to,
        r - from == lead_count(s@.subrange(from as int, to as int), in_set(set@)),
{
    let ghost t = s@.subrange(from as int, to as int);
    let mut i: usize = from;
    while i < to && has_char_exec(set, s[i])
        invariant
            from <= i <= to <= s@.len(),
            t == s@.subrange(from as int, to as int),
            forall|j: int| from <= j < i ==> set@.contains(#[trigger] s@[j]),
        decreases to - i,
    {
        proof {
            let k = choose|k: int| 0 <= k < set@.len() && set@[k] == s@[i as int];
            assert(set@.contains(s@[i as int]));
        }
        i = i + 1;
    }
    proof {
        assert forall|j: int| 0 <= j < i - from implies in_set(set@)(#[trigger] t[j]) by {
            assert(t[j] == s@[j + from]);
        }
        if i < to {
            assert(t[i - from] == s@[i as int]);
            if set@.contains(s@[i as int]) {
                let k = choose|k: int| 0 <= k < set@.len() && set@[k] == s@[i as int];
                assert(false);
            }
        }
        lemma_lead_count_unique(t, in_set(set@), i - from);
    }
    i
}

/// End of `s[from..to]` after dropping trailing characters that are in `set`.
pub fn skip_set_back(s: &[char], from: usize, to: usize, set: &[char]) -> (r: usize)
    requires
        from <= to <= s@.len(),
    ensures
        from <= r <= to,
        to - r == trail_count(s@.subrange(from as int, to as int), in_set(set@)),
{
    let ghost t = s@.subrange(from as int, to as int);
    let mut e: usize = to;
    while e > from && has_char_exec(set, s[e - 1])
        invariant
            from <= e <= to <= s@.len(),
            t == s@.subrange(from as int, to as int),
            forall|j: int| e <= j < to ==> set@.contains(#[trigger] s@[j]),
        decreases e,
    {
        proof {
            let k = choose|k: int| 0 <= k < set@.len() && set@[k] == s@[e - 1];
            assert(set@.contains(s@[e - 1]));
        }
        e = e - 1;
    }
    proof {
        assert forall|j: int| t.len() - (to - e) <= j < t.len() implies in_set(set@)(
            #[trigger] t[j],
        ) by {
            assert(t[j] == s@[j + from]);
        }
        if e > from {
            assert(t[t.len() - (to - e) - 1] == s@[e - 1]);
            if set@.contains(s@[e - 1]) {
                let k = choose|k: int| 0 <= k < set@.len() && set@[k] == s@[e - 1];
                assert(false);
            }
        }
        lemma_trail_count_unique(t, in_set(set@), (to - e) as int);
    }
    e
}

// ---------------------------------------------------------------------------
// Lines
// ---------------------------------------------------------------------------

/// Index of the first `c` at or after `i`, or `s.len()` when there is none.
pub open spec fn find_from(s: Seq<char>, c: char, i: int) -> int
    decreases s.len() - i,
{
    if i >= s.len() {
        s.len() as int
    } else if s[i] == c {
        i
    } else {
        find_from(s, c, i + 1)
    }
}

pub proof fn lemma_find_from(s: Seq<char>, c: char, i: int)
    requires
        0 <= i <= s.len(),
    ensures
        i <= find_from(s, c, i) <= s.len(),
        find_from(s, c, i) < s.len() ==> s[find_from(s, c, i)] == c,
        forall|j: int| i <= j < find_from(s, c, i) ==> s[j] != c,
    decreases s.len() - i,
{
    if i < s.len() && s[i] != c {
        lemma_find_from(s, c, i + 1);
    }
}

/// The spans `(start, end)` of the lines of `s` from position `start` on, as
/// `str::lines` yields them: split at `'\n'`, a `'\r'` before the `'\n'` dropped,
/// and no empty line after a final `'\n'`.
pub open spec fn line_spans_from(s: Seq<char>, start: int) -> Seq<(int, int)>
    decreases s.len() - start,
{
    if start < 0 || start >= s.len() {
        Seq::empty()
    } else {
        let e = find_from(s, '\n', start);
        let end = if e < s.len() && e > start && s[e - 1] == '\r' {
            e - 1
        } else {
            e
        };
        proof {
            lemma_find_from(s, '\n', start);
        }
        if e >= s.len() {
            seq![(start, end)]
        } else {
            seq![(start, end)] + line_spans_from(s, e + 1)
        }
    }
}

pub open spec fn line_spans(s: Seq<char>) -> Seq<(int, int)> {
    line_spans_from(s, 0)
}

/// The lines of `s` (`str::lines`).
pub open spec fn lines(s: Seq<char>) -> Seq<Seq<char>> {
    line_spans(s).map_values(|p: (int, int)| s.subrange(p.0, p.1))
}

pub proof fn lemma_line_spans_from_bounds(s: Seq<char>, start: int)
    requires
        0 <= start,
    ensures
        forall|k: int|
            0 <= k < line_spans_from(s, start).len() ==> start <= (
            #[trigger] line_spans_from(s, start)[k]).0 <= line_spans_from(s, start)[k].1
                <= s.len(),
    decreases s.len() - start,
{
    if start < s.len() {
        lemma_find_from(s, '\n', start);
        let e = find_from(s, '\n', start);
        if e < s.len() {
            lemma_line_spans_from_bounds(s, e + 1);
        }
        let rest = line_spans_from(s, e + 1);
        let end = if e < s.len() && e > start && s[e - 1] == '\r' {
            e - 1
        } else {
            e
        };
        assert(line_spans_from(s, start) == seq![(start, end)] + rest);
        assert forall|k: int| 0 <= k < line_spans_from(s, start).len() implies start <= (
        #[trigger] line_spans_from(s, start)[k]).0 <= line_spans_from(s, start)[k].1
            <= s.len() by {
            if k > 0 {
                assert(line_spans_from(s, start)[k] == rest[k - 1]);
            }
        }
    }
}

pub proof fn lemma_line_spans_bounds(s: Seq<char>)
    ensures
        forall|k: int|
            0 <= k < line_spans(s).len() ==> 0 <= (#[trigger] line_spans(s)[k]).0 <= line_spans(
                s,
            )[k].1 <= s.len(),
{
    lemma_line_spans_from_bounds(s, 0);
}

/// The spans of the lines of `s` (`str::lines`).
pub fn line_spans_exec(s: &[char]) -> (r: Vec<(usize, usize)>)
    ensures
        r@.len() == line_spans(s@).len(),
        forall|k: int|
            0 <= k < r@.len() ==> (#[trigger] r@[k]).0 == line_spans(s@)[k].0 && r@[k].1
                == line_spans(s@)[k].1,
        forall|k: int| 0 <= k < r@.len() ==> (#[trigger] r@[k]).0 <= r@[k].1 <= s@.len(),
{
    let mut r: Vec<(usize, usize)> = Vec::new();
    let mut start: usize = 0;
    while start < s.len()
        invariant
            start <= s@.len(),
            r@.len() + line_spans_from(s@, start as int).len() == line_spans(s@).len(),
            forall|k: int|
                0 <= k < r@.len() ==> (#[trigger] r@[k]).0 == line_spans(s@)[k].0 && r@[k].1
                    == line_spans(s@)[k].1,
            forall|k: int|
                0 <= k < line_spans_from(s@, start as int).len() ==> line_spans(s@)[r@.len()
                    + k] == #[trigger] line_spans_from(s@, start as int)[k],
            forall|k: int| 0 <= k < r@.len() ==> (#[trigger] r@[k]).0 <= r@[k].1 <= s@.len(),
        decreases s@.len() - start,
    {
        let mut e: usize = start;
        while e < s.len() && s[e] != '\n'
            invariant
                start <= e <= s@.len(),
                find_from(s@, '\n', start as int) == find_from(s@, '\n', e as int),
            decreases s@.len() - e,
        {
            e = e + 1;
        }
        let end = if e < s.len() && e > start && s[e - 1] == '\r' {
            e - 1
        } else {
            e
        };
        proof {
            let rest = line_spans_from(s@, e + 1);
            assert(line_spans_from(s@, start as int) == seq![(start as int, end as int)] + rest);
            assert(line_spans(s@)[r@.len() as int] == line_spans_from(s@, start as int)[0]);
            assert forall|k: int| 0 <= k < rest.len() implies line_spans(s@)[r@.len() + 1 + k]
                == #[trigger] rest[k] by {
                assert(line_spans_from(s@, start as int)[k + 1] == rest[k]);
            }
        }
        r.push((start, end));
        if e >= s.len() {
            start = s.len();
        } else {
            start = e + 1;
        }
    }
    r
}

// ---------------------------------------------------------------------------
// UTF-8 byte lengths
// ---------------------------------------------------------------------------

/// Number of bytes of `c` in UTF-8.
pub open spec fn utf8_width(c: char) -> int {
    let v = c as u32;
    if v < 0x80 {
        1
    } else if v < 0x800 {
        2
    } else if v < 0x10000 {
        3
    } else {
        4
    }
}

/// Number of bytes of `s` in UTF-8 (`str::len`).
pub open spec fn byte_len(s: Seq<char>) -> int
    decreases s.len(),
{
    if s.len() == 0 {
        0
    } else {
        byte_len(s.drop_last()) + utf8_width(s.last())
    }
}

pub fn utf8_width_exec(c: char) -> (w: usize)
    ensures
        w == utf8_width(c),
{
    let v = c as u32;
    if v < 0x80 {
        1
    } else if v < 0x800 {
        2
    } else if v < 0x10000 {
        3
    } else {
        4
    }
}

pub proof fn lemma_byte_len_monotone(s: Seq<char>, i: int)
    requires
        0 <= i <= s.len(),
    ensures
        byte_len(s.take(i)) + (s.len() - i) <= byte_len(s),
        byte_len(s.take(i)) >= i,
    decreases s.len(),
{
    if i < s.len() {
        assert(s.drop_last().take(i) =~= s.take(i));
        lemma_byte_len_monotone(s.drop_last(), i);
    } else {
        assert(s.take(i) =~= s);
        lemma_byte_len_ge_len(s);
    }
}

pub proof fn lemma_byte_len_ge_len(s: Seq<char>)
    ensures
        byte_len(s) >= s.len(),
    decreases s.len(),
{
    if s.len() > 0 {
        lemma_byte_len_ge_len(s.drop_last());
    }
}

} // verus!

verus! {

pub proof fn lemma_byte_len_take_step(s: Seq<char>, k: int)
    requires
        0 <= k < s.len(),
    ensures
        byte_len(s.take(k + 1)) == byte_len(s.take(k)) + utf8_width(s[k]),
{
    assert(s.take(k + 1).drop_last() =~= s.take(k));
}

pub proof fn lemma_byte_len_take_strict(s: Seq<char>, i: int, j: int)
    requires
        0 <= i < j <= s.len(),
    ensures
        byte_len(s.take(i)) < byte_len(s.take(j)),
    decreases j - i,
{
    lemma_byte_len_take_step(s, j - 1);
    if i < j - 1 {
        lemma_byte_len_take_strict(s, i, j - 1);
    }
}

/// `n` falls on a character boundary of the UTF-8 encoding of `s`.
pub open spec fn is_char_boundary(s: Seq<char>, n: int) -> bool {
    exists|k: int| 0 <= k <= s.len() && #[trigger] byte_len(s.take(k)) == n
}

/// The number of characters whose UTF-8 encoding takes the first `n` bytes of `s`.
pub open spec fn boundary_index(s: Seq<char>, n: int) -> int {
    choose|k: int| 0 <= k <= s.len() && #[trigger] byte_len(s.take(k)) == n
}

pub proof fn lemma_boundary_index_unique(s: Seq<char>, n: int, k: int)
    requires
        0 <= k <= s.len(),
        byte_len(s.take(k)) == n,
    ensures
        is_char_boundary(s, n),
        boundary_index(s, n) == k,
{
    assert(is_char_boundary(s, n));
    let b = boundary_index(s, n);
    if b < k {
        lemma_byte_len_take_strict(s, b, k);
    } else if k < b {
        lemma_byte_len_take_strict(s, k, b);
    }
}

/// The number of characters of `s` that make up its first `n` bytes, when `n`
/// is a character boundary.
pub fn boundary_index_exec(s: &[char], n: usize) -> (r: Option<usize>)
    requires
        n < usize::MAX - 4,
    ensures
        r is Some <==> is_char_boundary(s@, n as int),
        r matches Some(k) ==> k == boundary_index(s@, n as int) && k <= s@.len(),
{
    let mut acc: usize = 0;
    let mut k: usize = 0;
    assert(s@.take(0) =~= Seq::<char>::empty());
    while k < s.len() && acc < n
        invariant
            k <= s@.len(),
            n < usize::MAX - 4,
            acc == byte_len(s@.take(k as int)),
            acc <= n + 4,
            forall|j: int| 0 <= j < k ==> byte_len(s@.take(j)) < n,
        decreases s@.len() - k,
    {
        proof {
            lemma_byte_len_take_step(s@, k as int);
        }
        acc = acc + utf8_width_exec(s[k]);
        k = k + 1;
    }
    if acc == n {
        proof {
            lemma_boundary_index_unique(s@, n as int, k as int);
        }
        Some(k)
    } else {
        proof {
            if is_char_boundary(s@, n as int) {
                let b = boundary_index(s@, n as int);
                if b > k {
                    lemma_byte_len_take_strict(s@, k as int, b);
                } else if b == k {
                } else {
                }
            }
        }
        None
    }
}

} // verus!

verus! {

/// Bounds of `s[from..to]` with leading and trailing characters from `set`
/// removed (`str::trim_matches` with a character set).
pub fn trim_set_bounds(s: &[char], from: usize, to: usize, set: &[char]) -> (r: (usize, usize))
    requires
        from <= to <= s@.len(),
    ensures
        from <= r.0 <= r.1 <= to,
        s@.subrange(r.0 as int, r.1 as int) == trim_by(
            s@.subrange(from as int, to as int),
            in_set(set@),
        ),
{
    let a = skip_set(s, from, to, set);
    let b = skip_set_back(s, a, to, set);
    proof {
        let t = s@.subrange(from as int, to as int);
        assert(trim_start_by(t, in_set(set@)) =~= s@.subrange(a as int, to as int));
        assert(trim_end_by(s@.subrange(a as int, to as int), in_set(set@)) =~= s@.subrange(
            a as int,
            b as int,
        ));
    }
    (a, b)
}

/// Bounds of `s[from..to]` with leading and trailing whitespace removed.
pub fn trim_range(s: &[char], from: usize, to: usize) -> (r: (usize, usize))
    requires
        from <= to <= s@.len(),
    ensures
        from <= r.0 <= r.1 <= to,
        s@.subrange(r.0 as int, r.1 as int) == trim(s@.subrange(from as int, to as int)),
{
    let t = &s[from..to];
    let (a, b) = trim_bounds(t);
    proof {
        assert(t@ == s@.subrange(from as int, to as int));
        assert(t@.subrange(a as int, b as int) =~= s@.subrange(from + a, from + b));
    }
    (from + a, from + b)
}

} // verus!

verus! {

/// Whether `s` takes more than `n` bytes in UTF-8.
pub fn byte_len_exceeds(s: &[char], n: usize) -> (b: bool)
    requires
        n < usize::MAX - 4,
    ensures
        b == (byte_len(s@) > n),
{
    let mut bytes: usize = 0;
    let mut k: usize = 0;
    assert(s@.take(0) =~= Seq::<char>::empty());
    while k < s.len() && bytes <= n
        invariant
            k <= s@.len(),
            n < usize::MAX - 4,
            bytes == byte_len(s@.take(k as int)),
            bytes <= n + 4,
        decreases s@.len() - k,
    {
        proof {
            lemma_byte_len_take_step(s@, k as int);
        }
        bytes = bytes + utf8_width_exec(s[k]);
        k = k + 1;
    }
    proof {
        if k == s@.len() {
            assert(s@.take(k as int) =~= s@);
        } else {
            lemma_byte_len_take_strict(s@, k as int, s@.len() as int);
            assert(s@.take(s@.len() as int) =~= s@);
        }
    }
    bytes > n
}

} // verus!

verus! {

/// The decimal digits of `n` (`u64`'s `Display`).
pub open spec fn decimal(n: nat) -> Seq<char>
    decreases n,
{
    if n < 10 {
        seq![digit_char(n)]
    } else {
        decimal(n / 10) + seq![digit_char(n % 10)]
    }
}

pub open spec fn digit_char(d: nat) -> char {
    ((d + 48) as u32) as char
}

/// The decimal representation of `n`.
pub fn decimal_string(n: u64) -> (r: String)
    ensures
        r@ == decimal(n as nat),
{
    let mut digits: Vec<char> = Vec::new();
    let mut m: u64 = n;
    // Collect the digits from the least significant one.
    while m >= 10
        invariant
            decimal(n as nat) == decimal(m as nat) + digits@.reverse(),
        decreases m,
    {
        let d = (m % 10) as u32;
        let c = char_from_digit(d);
        let ghost old_digits = digits@;
        digits.push(c);
        proof {
            assert(decimal(m as nat) == decimal((m / 10) as nat) + seq![digit_char((m % 10) as nat)]);
            assert(digits@.reverse() =~= seq![c] + old_digits.reverse());
        }
        m = m / 10;
    }
    let c = char_from_digit(m as u32);
    digits.push(c);
    proof {
        assert(decimal(m as nat) == seq![c]);
    }
    let mut r = String::new();
    let mut i: usize = digits.len();
    assert(digits@.reverse().subrange(0, 0) =~= Seq::<char>::empty());
    while i > 0
        invariant
            i <= digits@.len(),
            r@ == digits@.reverse().subrange(0, digits@.len() - i),
        decreases i,
    {
        i = i - 1;
        push_char(&mut r, digits[i]);
        assert(r@ =~= digits@.reverse().subrange(0, digits@.len() - i));
    }
    proof {
        assert(digits@.reverse().subrange(0, digits@.len() as int) =~= digits@.reverse());
        let old_rev = digits@.drop_last().reverse();
        assert(digits@.reverse() =~= seq![c] + old_rev);
        assert(decimal(n as nat) =~= seq![c] + old_rev);
    }
    r
}

fn char_from_digit(d: u32) -> (c: char)
    requires
        d < 10,
    ensures
        c == digit_char(d as nat),
{
    if d == 0 { '0' }
    else if d == 1 { '1' }
    else if d == 2 { '2' }
    else if d == 3 { '3' }
    else if d == 4 { '4' }
    else if d == 5 { '5' }
    else if d == 6 { '6' }
    else if d == 7 { '7' }
    else if d == 8 { '8' }
    else { '9' }
}

} // verus!

verus! {

pub open spec fn is_digit(c: char) -> bool {
    '0' <= c && c <= '9'
}

/// The value of a string of decimal digits.
pub open spec fn digits_value(s: Seq<char>) -> nat
    decreases s.len(),
{
    if s.len() == 0 {
        0
    } else {
        digits_value(s.drop_last()) * 10 + ((s.last() as u32) - 48) as nat
    }
}

/// `str::parse::<u16>`: an optional `+`, then at least one decimal digit, with
/// a value that fits in 16 bits.
pub open spec fn parse_u16(s: Seq<char>) -> Option<u16> {
    let body = if s.len() > 0 && s[0] == '+' {
        s.subrange(1, s.len() as int)
    } else {
        s
    };
    parse_u16_body(body)
}

/// The value of a non-empty string of decimal digits that fits in 16 bits.
pub open spec fn parse_u16_body(body: Seq<char>) -> Option<u16> {
    if body.len() == 0 || !(forall|i: int| 0 <= i < body.len() ==> is_digit(#[trigger] body[i]))
        || digits_value(body) > 65535 {
        None
    } else {
        Some(digits_value(body) as u16)
    }
}

pub proof fn lemma_digits_value_monotone(s: Seq<char>, k: int)
    requires
        0 <= k <= s.len(),
        forall|i: int| 0 <= i < s.len() ==> is_digit(#[trigger] s[i]),
    ensures
        digits_value(s.take(k)) <= digits_value(s),
    decreases s.len() - k,
{
    if k < s.len() {
        assert(s.drop_last().take(k) =~= s.take(k));
        assert forall|i: int| 0 <= i < s.drop_last().len() implies is_digit(
            #[trigger] s.drop_last()[i],
        ) by {
            assert(s.drop_last()[i] == s[i]);
        }
        lemma_digits_value_monotone(s.drop_last(), k);
    } else {
        assert(s.take(k) =~= s);
    }
}

/// Parses `s[from..to]` as a `u16` (see `parse_u16`).
pub fn parse_u16_exec(s: &[char], from: usize, to: usize) -> (r: Option<u16>)
    requires
        from <= to <= s@.len(),
    ensures
        r == parse_u16(s@.subrange(from as int, to as int)),
{
    let ghost t = s@.subrange(from as int, to as int);
    let mut start = from;
    if from < to && s[from] == '+' {
        start = from + 1;
    }
    let ghost body = s@.subrange(start as int, to as int);
    proof {
        if from < to && s@[from as int] == '+' {
            assert(body =~= t.subrange(1, t.len() as int));
        } else {
            assert(body =~= t);
        }
    }
    if start == to {
        return None;
    }
    let mut value: u32 = 0;
    let mut i = start;
    assert(body.take(0) =~= Seq::<char>::empty());
    while i < to
        invariant
            from <= start <= i <= to <= s@.len(),
            body == s@.subrange(start as int, to as int),
            parse_u16(s@.subrange(from as int, to as int)) == parse_u16_body(body),
            forall|j: int| 0 <= j < i - start ==> is_digit(#[trigger] body[j]),
            value == digits_value(body.take(i - start)),
            value <= 65535,
        decreases to - i,
    {
        let c = s[i];
        if !('0' <= c && c <= '9') {
            assert(body[i - start] == c);
            return None;
        }
        proof {
            assert(body.take(i - start + 1).drop_last() =~= body.take(i - start));
            assert(body.take(i - start + 1).last() == c);
        }
        value = value * 10 + ((c as u32) - 48);
        if value > 65535 {
            proof {
                let rest_ok = forall|j: int| 0 <= j < body.len() ==> is_digit(#[trigger] body[j]);
                if rest_ok {
                    lemma_digits_value_monotone(body, i - start + 1);
                }
            }
            return None;
        }
        i = i + 1;
    }
    assert(body.take(to - start) =~= body);
    Some(value as u16)
}

/// `s` with every leading occurrence of the non-empty `p` removed
/// (`str::trim_start_matches` with a string).
pub open spec fn strip_prefix_all(s: Seq<char>, p: Seq<char>) -> Seq<char>
    decreases s.len(),
{
    if p.len() > 0 && starts_with(s, p) {
        strip_prefix_all(s.subrange(p.len() as int, s.len() as int), p)
    } else {
        s
    }
}

/// Start of `s[from..to]` after removing every leading occurrence of `p`.
pub fn strip_prefix_all_exec(s: &[char], from: usize, to: usize, p: &[char]) -> (r: usize)
    requires
        from <= to <= s@.len(),
    ensures
        from <= r <= to,
        s@.subrange(r as int, to as int) == strip_prefix_all(
            s@.subrange(from as int, to as int),
            p@,
        ),
{
    let mut i = from;
    while i < to && p.len() > 0 && p.len() <= to - i && matches_at_exec(s, p, i)
        invariant
            from <= i <= to <= s@.len(),
            strip_prefix_all(s@.subrange(from as int, to as int), p@) == strip_prefix_all(
                s@.subrange(i as int, to as int),
                p@,
            ),
        decreases to - i,
    {
        proof {
            let t = s@.subrange(i as int, to as int);
            assert(t.subrange(0, p@.len() as int) =~= s@.subrange(i as int, i + p@.len()));
            assert(t.subrange(p@.len() as int, t.len() as int) =~= s@.subrange(
                i + p@.len(),
                to as int,
            ));
        }
        i = i + p.len();
    }
    proof {
        let t = s@.subrange(i as int, to as int);
        if p@.len() > 0 && i < to && starts_with(t, p@) {
            assert(t.subrange(0, p@.len() as int) =~= s@.subrange(i as int, i + p@.len()));
            assert(matches_at(s@, p@, i as int));
        }
        if p@.len() > 0 && i == to && starts_with(t, p@) {
        }
    }
    i
}

/// `s` with the prefix `p` removed, when it has it (`str::strip_prefix`).
pub open spec fn strip_prefix(s: Seq<char>, p: Seq<char>) -> Option<Seq<char>> {
    if starts_with(s, p) {
        Some(s.subrange(p.len() as int, s.len() as int))
    } else {
        None
    }
}

/// The strings of `ls` joined by `'\n'` (`[&str]::join("\n")`).
pub open spec fn join_lines(ls: Seq<Seq<char>>) -> Seq<char>
    decreases ls.len(),
{
    if ls.len() == 0 {
        Seq::empty()
    } else if ls.len() == 1 {
        ls[0]
    } else {
        join_lines(ls.drop_last()) + seq!['\n'] + ls.last()
    }
}

/// A pattern without a line break that occurs in none of the lines occurs
/// nowhere in their join.
pub proof fn lemma_join_lines_avoids(ls: Seq<Seq<char>>, m: Seq<char>)
    requires
        m.len() > 0,
        !has_char(m, '\n'),
        forall|i: int| 0 <= i < ls.len() ==> !contains(#[trigger] ls[i], m),
    ensures
        !contains(join_lines(ls), m),
    decreases ls.len(),
{
    if ls.len() == 1 {
        assert(!contains(ls[0], m));
    } else if ls.len() > 1 {
        let init = ls.drop_last();
        let j = join_lines(init);
        let l = ls.last();
        let s = join_lines(ls);
        assert forall|i: int| 0 <= i < init.len() implies !contains(#[trigger] init[i], m) by {
            assert(init[i] == ls[i]);
        }
        lemma_join_lines_avoids(init, m);
        assert(!contains(l, m)) by {
            assert(l == ls[ls.len() - 1]);
        }
        assert(s == j + seq!['\n'] + l);
        assert forall|k: int| !#[trigger] matches_at(s, m, k) by {
            if matches_at(s, m, k) {
                if k + m.len() <= j.len() {
                    assert(j.subrange(k, k + m.len()) =~= s.subrange(k, k + m.len()));
                    assert(matches_at(j, m, k));
                } else if k > j.len() {
                    let k2 = k - j.len() - 1;
                    assert(l.subrange(k2, k2 + m.len()) =~= s.subrange(k, k + m.len()));
                    assert(matches_at(l, m, k2));
                } else {
                    let q = j.len() - k;
                    assert(s[j.len() as int] == '\n');
                    assert(s.subrange(k, k + m.len())[q] == s[j.len() as int]);
                    assert(m[q] == '\n');
                }
            }
        }
    }
}

} // verus!

verus! {

/// Index of the last `c` before position `i`, or `-1`.
pub open spec fn rfind_before(s: Seq<char>, c: char, i: int) -> int
    decreases i,
{
    if i <= 0 {
        -1
    } else if s[i - 1] == c {
        i - 1
    } else {
        rfind_before(s, c, i - 1)
    }
}

/// Index in `s` of the last `c` in `s[from..to]`, or `None`.
pub fn rfind_exec(s: &[char], from: usize, to: usize, c: char) -> (r: Option<usize>)
    requires
        from <= to <= s@.len(),
    ensures
        r matches Some(k) ==> from <= k < to && k - from == rfind_before(
            s@.subrange(from as int, to as int),
            c,
            to - from,
        ),
        r is None ==> rfind_before(s@.subrange(from as int, to as int), c, to - from) == -1,
{
    let ghost t = s@.subrange(from as int, to as int);
    let mut i = to;
    while i > from
        invariant
            from <= i <= to <= s@.len(),
            t == s@.subrange(from as int, to as int),
            rfind_before(t, c, to - from) == rfind_before(t, c, i - from),
        decreases i,
    {
        if s[i - 1] == c {
            assert(t[i - 1 - from] == c);
            return Some(i - 1);
        }
        assert(t[i - 1 - from] != c);
        i = i - 1;
    }
    None
}

/// Index in `s` of the first `c` in `s[from..to]`, or `to`.
pub fn find_exec(s: &[char], from: usize, to: usize, c: char) -> (r: usize)
    requires
        from <= to <= s@.len(),
    ensures
        from <= r <= to,
        r - from == find_from(s@.subrange(from as int, to as int), c, 0),
{
    let ghost t = s@.subrange(from as int, to as int);
    let mut i = from;
    while i < to && s[i] != c
        invariant
            from <= i <= to <= s@.len(),
            t == s@.subrange(from as int, to as int),
            find_from(t, c, 0) == find_from(t, c, i - from),
        decreases to - i,
    {
        assert(t[i - from] != c);
        i = i + 1;
    }
    proof {
        if i < to {
            assert(t[i - from] == c);
        }
    }
    i
}

} // verus!

verus! {

/// `str::eq_ignore_ascii_case`.
pub fn eq_ignore_ascii_case(a: &[char], b: &[char]) -> (r: bool)
    ensures
        r == (ascii_lower(a@) == ascii_lower(b@)),
{
    if a.len() != b.len() {
        proof {
            assert(ascii_lower(a@).len() != ascii_lower(b@).len());
        }
        return false;
    }
    let mut i: usize = 0;
    while i < a.len()
        invariant
            i <= a@.len(),
            a@.len() == b@.len(),
            forall|j: int| 0 <= j < i ==> lower_char(#[trigger] a@[j]) == lower_char(b@[j]),
        decreases a@.len() - i,
    {
        if lower_ascii(a[i]) != lower_ascii(b[i]) {
            assert(ascii_lower(a@)[i as int] != ascii_lower(b@)[i as int]);
            return false;
        }
        i = i + 1;
    }
    assert(ascii_lower(a@) =~= ascii_lower(b@));
    true
}

/// ASCII lower-casing of one character.
pub fn lower_ascii(c: char) -> (r: char)
    ensures
        r == lower_char(c),
{
    if 'A' <= c && c <= 'Z' {
        let b = (c as u8) + 32;
        b as char
    } else {
        c
    }
}

} // verus!

verus! {

/// The spans of the pieces of `s[i..]` between occurrences of `c`
/// (`str::split` with a character; there is always at least one piece).
pub open spec fn split_spans_from(s: Seq<char>, c: char, i: int) -> Seq<(int, int)>
    decreases s.len() + 1 - i,
{
    if i < 0 || i > s.len() {
        Seq::empty()
    } else {
        let e = find_from(s, c, i);
        proof {
            lemma_find_from(s, c, i);
        }
        if e >= s.len() {
            seq![(i, s.len() as int)]
        } else {
            seq![(i, e)] + split_spans_from(s, c, e + 1)
        }
    }
}

pub open spec fn split_spans(s: Seq<char>, c: char) -> Seq<(int, int)> {
    split_spans_from(s, c, 0)
}

/// The spans of the pieces of `s[from..to]` split at `c`, as positions in `s`.
pub fn split_spans_exec(s: &[char], from: usize, to: usize, c: char) -> (r: Vec<(usize, usize)>)
    requires
        from <= to <= s@.len(),
    ensures
        r@.len() == split_spans(s@.subrange(from as int, to as int), c).len(),
        forall|k: int|
            0 <= k < r@.len() ==> (#[trigger] r@[k]).0 - from == split_spans(
                s@.subrange(from as int, to as int),
                c,
            )[k].0 && r@[k].1 - from == split_spans(s@.subrange(from as int, to as int), c)[k].1,
        forall|k: int| 0 <= k < r@.len() ==> from <= (#[trigger] r@[k]).0 <= r@[k].1 <= to,
{
    let ghost t = s@.subrange(from as int, to as int);
    let mut r: Vec<(usize, usize)> = Vec::new();
    let mut start = from;
    loop
        invariant_except_break
            from <= start <= to <= s@.len(),
            r@.len() + split_spans_from(t, c, start - from).len() == split_spans(t, c).len(),
            forall|k: int|
                0 <= k < split_spans_from(t, c, start - from).len() ==> split_spans(t, c)[r@.len()
                    + k] == #[trigger] split_spans_from(t, c, start - from)[k],
        invariant
            t == s@.subrange(from as int, to as int),
            forall|k: int|
                0 <= k < r@.len() ==> (#[trigger] r@[k]).0 - from == split_spans(t, c)[k].0
                    && r@[k].1 - from == split_spans(t, c)[k].1,
            forall|k: int| 0 <= k < r@.len() ==> from <= (#[trigger] r@[k]).0 <= r@[k].1 <= to,
        ensures
            r@.len() == split_spans(t, c).len(),
        decreases to + 1 - start,
    {
        let e = find_exec(s, start, to, c);
        proof {
            lemma_find_from(t, c, start - from);
            assert(s@.subrange(start as int, to as int) =~= t.subrange(
                start - from,
                t.len() as int,
            ));
            assert(find_from(t, c, start - from) == (e - from)) by {
                lemma_find_shift(t, c, start - from, e - from);
            }
        }
        let ghost rest = split_spans_from(t, c, e - from + 1);
        if e >= to {
            proof {
                assert(split_spans_from(t, c, start - from) == seq![(start - from, t.len() as int)]);
                assert(split_spans(t, c)[r@.len() as int] == split_spans_from(t, c, start - from)[0]);
            }
            r.push((start, to));
            break;
        } else {
            proof {
                assert(split_spans_from(t, c, start - from) == seq![(start - from, e - from)] + rest);
                assert(split_spans(t, c)[r@.len() as int] == split_spans_from(t, c, start - from)[0]);
                assert forall|k: int| 0 <= k < rest.len() implies split_spans(t, c)[r@.len() + 1 + k]
                    == #[trigger] rest[k] by {
                    assert(split_spans_from(t, c, start - from)[k + 1] == rest[k]);
                }
            }
            r.push((start, e));
            start = e + 1;
        }
    }
    r
}

/// The search for `c` in `t` from `i` relates to the search in the sub-slice.
pub proof fn lemma_find_shift(t: Seq<char>, c: char, i: int, e: int)
    requires
        0 <= i <= t.len(),
        i <= e <= t.len(),
        e - i == find_from(t.subrange(i, t.len() as int), c, 0),
    ensures
        find_from(t, c, i) == e,
{
    let u = t.subrange(i, t.len() as int);
    lemma_find_from(u, c, 0);
    lemma_find_from(t, c, i);
    let f = find_from(t, c, i);
    if f < e {
        assert(u[f - i] == t[f]);
    } else if e < f {
        if e < t.len() {
            assert(u[e - i] == t[e]);
        }
    }
}

} // verus!

verus! {

/// The pieces of `s` between occurrences of `c` (`str::split` with a character).
pub open spec fn split(s: Seq<char>, c: char) -> Seq<Seq<char>> {
    split_spans(s, c).map_values(|p: (int, int)| s.subrange(p.0, p.1))
}

/// `str::parse::<u32>`: an optional `+`, then at least one decimal digit, with
/// a value that fits in 32 bits.
pub open spec fn parse_u32(s: Seq<char>) -> Option<u32> {
    let body = if s.len() > 0 && s[0] == '+' {
        s.subrange(1, s.len() as int)
    } else {
        s
    };
    parse_u32_body(body)
}

/// The value of a non-empty string of decimal digits that fits in 32 bits.
pub open spec fn parse_u32_body(body: Seq<char>) -> Option<u32> {
    if body.len() == 0 || !(forall|i: int| 0 <= i < body.len() ==> is_digit(#[trigger] body[i]))
        || digits_value(body) > 0xffff_ffff {
        None
    } else {
        Some(digits_value(body) as u32)
    }
}

/// Parses `s[from..to]` as a `u32` (see `parse_u32`).
pub fn parse_u32_exec(s: &[char], from: usize, to: usize) -> (r: Option<u32>)
    requires
        from <= to <= s@.len(),
    ensures
        r == parse_u32(s@.subrange(from as int, to as int)),
{
    let ghost t = s@.subrange(from as int, to as int);
    let mut start = from;
    if from < to && s[from] == '+' {
        start = from + 1;
    }
    let ghost body = s@.subrange(start as int, to as int);
    proof {
        if from < to && s@[from as int] == '+' {
            assert(body =~= t.subrange(1, t.len() as int));
        } else {
            assert(body =~= t);
        }
    }
    if start == to {
        return None;
    }
    let mut value: u64 = 0;
    let mut i = start;
    assert(body.take(0) =~= Seq::<char>::empty());
    while i < to
        invariant
            from <= start <= i <= to <= s@.len(),
            body == s@.subrange(start as int, to as int),
            parse_u32(s@.subrange(from as int, to as int)) == parse_u32_body(body),
            forall|j: int| 0 <= j < i - start ==> is_digit(#[trigger] body[j]),
            value == digits_value(body.take(i - start)),
            value <= 0xffff_ffff,
        decreases to - i,
    {
        let c = s[i];
        if !('0' <= c && c <= '9') {
            assert(body[i - start] == c);
            return None;
        }
        proof {
            assert(body.take(i - start + 1).drop_last() =~= body.take(i - start));
            assert(body.take(i - start + 1).last() == c);
        }
        value = value * 10 + ((c as u32) - 48) as u64;
        if value > 0xffff_ffff {
            proof {
                let rest_ok = forall|j: int| 0 <= j < body.len() ==> is_digit(#[trigger] body[j]);
                if rest_ok {
                    lemma_digits_value_monotone(body, i - start + 1);
                }
            }
            return None;
        }
        i = i + 1;
    }
    assert(body.take(to - start) =~= body);
    Some(value as u32)
}

} // verus!

verus! {

/// The upper-case hexadecimal digit of `d` (below 16).
pub open spec fn hex_digit(d: nat) -> char {
    if d < 10 {
        digit_char(d)
    } else if d == 10 {
        'A'
    } else if d == 11 {
        'B'
    } else if d == 12 {
        'C'
    } else if d == 13 {
        'D'
    } else if d == 14 {
        'E'
    } else {
        'F'
    }
}

/// The eight upper-case hexadecimal digits of `n`, zero-padded (`{:08X}`).
pub open spec fn hex8(n: u32) -> Seq<char> {
    Seq::new(8, |i: int| hex_digit(((n as nat) / pow16((7 - i) as nat)) % 16))
}

pub open spec fn pow16(k: nat) -> nat
    decreases k,
{
    if k == 0 {
        1
    } else {
        16 * pow16((k - 1) as nat)
    }
}

proof fn lemma_pow16_pos(k: nat)
    ensures
        pow16(k) >= 1,
    decreases k,
{
    if k > 0 {
        lemma_pow16_pos((k - 1) as nat);
    }
}

/// `format!("{:08X}", n)` (see `hex8`).
pub fn hex8_string(n: u32) -> (r: String)
    ensures
        r@ == hex8(n),
{
    let mut r = String::new();
    let mut i: usize = 0;
    let mut div: u64 = 268_435_456;
    assert(pow16(7) == 268_435_456) by {
        reveal_with_fuel(pow16, 8);
    }
    while i < 8
        invariant
            i <= 8,
            div == pow16((7 - i) as nat) || (i == 8 && div == 0),
            r@ == hex8(n).take(i as int),
        decreases 8 - i,
    {
        proof {
            lemma_pow16_pos((7 - i) as nat);
        }
        let d = ((n as u64) / div) % 16;
        let c = if d < 10 {
            digit_of(d)
        } else if d == 10 {
            'A'
        } else if d == 11 {
            'B'
        } else if d == 12 {
            'C'
        } else if d == 13 {
            'D'
        } else if d == 14 {
            'E'
        } else {
            'F'
        };
        push(&mut r, c);
        proof {
            assert(hex8(n)[i as int] == c);
            assert(r@ =~= hex8(n).take(i + 1));
            if i < 7 {
                assert(pow16((7 - i) as nat) == 16 * pow16((7 - i - 1) as nat));
            }
        }
        div = div / 16;
        i = i + 1;
    }
    assert(hex8(n).take(8) =~= hex8(n));
    r
}

/// The decimal digit of `d` (below 10).
fn digit_of(d: u64) -> (c: char)
    requires
        d < 10,
    ensures
        c == digit_char(d as nat),
{
    if d == 0 { '0' }
    else if d == 1 { '1' }
    else if d == 2 { '2' }
    else if d == 3 { '3' }
    else if d == 4 { '4' }
    else if d == 5 { '5' }
    else if d == 6 { '6' }
    else if d == 7 { '7' }
    else if d == 8 { '8' }
    else { '9' }
}

} // verus!
