//! How the lines of a text (`str::lines`) follow from the parts it is made of.

use vstd::prelude::*;
use crate::text::{find_from, has_char, line_spans, line_spans_from, lines};

verus! {

/// Searching a concatenation past its first part searches the second part.
pub proof fn lemma_find_from_shift(p: Seq<char>, t: Seq<char>, c: char, j: int)
    requires
        0 <= j,
    ensures
        find_from(p + t, c, p.len() + j) == p.len() + find_from(t, c, j),
    decreases t.len() - j,
{
    let s = p + t;
    if j < t.len() {
        assert(s[p.len() + j] == t[j]);
        if t[j] != c {
            lemma_find_from_shift(p, t, c, j + 1);
        }
    }
}

/// Spans moved `d` positions on.
pub open spec fn shift_spans(v: Seq<(int, int)>, d: int) -> Seq<(int, int)> {
    v.map_values(|q: (int, int)| (q.0 + d, q.1 + d))
}

/// The line spans of a concatenation from a position in its second part are
/// those of the second part, moved on by the length of the first.
pub proof fn lemma_line_spans_shift(p: Seq<char>, t: Seq<char>, j: int)
    requires
        0 <= j,
    ensures
        line_spans_from(p + t, p.len() + j) == shift_spans(line_spans_from(t, j), p.len() as int),
    decreases t.len() - j,
{
    let s = p + t;
    let d = p.len() as int;
    if j < t.len() {
        lemma_find_from_shift(p, t, '\n', j);
        crate::text::lemma_find_from(t, '\n', j);
        let e = find_from(t, '\n', j);
        if e > j {
            assert(s[d + e - 1] == t[e - 1]);
        }
        if e < t.len() {
            lemma_line_spans_shift(p, t, e + 1);
            assert(d + e + 1 == d + (e + 1));
        }
        assert(line_spans_from(s, d + j) =~= shift_spans(line_spans_from(t, j), d));
    } else {
        assert(line_spans_from(s, d + j) =~= shift_spans(line_spans_from(t, j), d));
    }
}

/// From a position where a line starts, the line spans of `s` go on as those
/// that start there: `k` spans come before.
pub proof fn lemma_line_spans_reach(s: Seq<char>, start: int, x: int) -> (k: int)
    requires
        0 <= start <= x <= s.len(),
        x == start || s[x - 1] == '\n',
    ensures
        0 <= k <= line_spans_from(s, start).len(),
        line_spans_from(s, start).subrange(k, line_spans_from(s, start).len() as int)
            == line_spans_from(s, x),
    decreases x - start,
{
    if x == start {
        assert(line_spans_from(s, start).subrange(0, line_spans_from(s, start).len() as int)
            =~= line_spans_from(s, start));
        0
    } else {
        crate::text::lemma_find_from(s, '\n', start);
        let e = find_from(s, '\n', start);
        if e > x - 1 {
            assert(s[x - 1] != '\n');
        }
        let k2 = lemma_line_spans_reach(s, e + 1, x);
        let all = line_spans_from(s, start);
        let rest = line_spans_from(s, e + 1);
        assert(all == seq![all[0]] + rest);
        assert(all.subrange(k2 + 1, all.len() as int) =~= rest.subrange(k2, rest.len() as int));
        k2 + 1
    }
}

/// When `a` is empty or ends a line, the lines of `a + b` end with the lines of
/// `b`: `k` lines come before them.
pub proof fn lemma_lines_append(a: Seq<char>, b: Seq<char>) -> (k: int)
    requires
        a.len() == 0 || a.last() == '\n',
    ensures
        0 <= k <= lines(a + b).len(),
        lines(a + b).subrange(k, lines(a + b).len() as int) == lines(b),
{
    let s = a + b;
    let k = lemma_line_spans_reach(s, 0, a.len() as int);
    lemma_line_spans_shift(a, b, 0);
    crate::text::lemma_line_spans_bounds(b);
    let sp = line_spans(s);
    let bs = line_spans(b);
    let d = a.len() as int;
    assert(sp.subrange(k, sp.len() as int) == shift_spans(bs, d));
    assert forall|i: int| 0 <= i < bs.len() implies #[trigger] lines(s).subrange(
        k,
        lines(s).len() as int,
    )[i] == lines(b)[i] by {
        assert(sp[k + i] == sp.subrange(k, sp.len() as int)[i]);
        assert(sp[k + i] == (bs[i].0 + d, bs[i].1 + d));
        assert(s.subrange(bs[i].0 + d, bs[i].1 + d) =~= b.subrange(bs[i].0, bs[i].1));
    }
    assert(lines(s).subrange(k, lines(s).len() as int) =~= lines(b));
    k
}

/// A line without a line break, followed by `'\n'` and more text, is the first
/// line; the lines of the rest follow.
pub proof fn lemma_lines_cons(x: Seq<char>, y: Seq<char>)
    requires
        !has_char(x, '\n'),
        x.len() == 0 || x.last() != '\r',
    ensures
        lines(x + seq!['\n'] + y) == seq![x] + lines(y),
{
    let p = x + seq!['\n'];
    let s = p + y;
    let n = x.len() as int;
    crate::text::lemma_find_from(s, '\n', 0);
    let e = find_from(s, '\n', 0);
    assert(s[n] == '\n');
    if e < n {
        assert(s[e] == x[e]);
    }
    assert(e == n);
    if n > 0 {
        assert(s[n - 1] == x.last());
    }
    lemma_line_spans_shift(p, y, 0);
    crate::text::lemma_line_spans_bounds(y);
    let sp = line_spans(s);
    let ys = line_spans(y);
    assert(sp == seq![(0int, n)] + line_spans_from(s, n + 1));
    assert(line_spans_from(s, n + 1) == shift_spans(ys, n + 1));
    assert(s.subrange(0, n) =~= x);
    assert forall|i: int| 0 <= i < lines(s).len() implies #[trigger] lines(s)[i] == (seq![x]
        + lines(y))[i] by {
        if i > 0 {
            assert(sp[i] == (ys[i - 1].0 + n + 1, ys[i - 1].1 + n + 1));
            assert(s.subrange(ys[i - 1].0 + n + 1, ys[i - 1].1 + n + 1) =~= y.subrange(
                ys[i - 1].0,
                ys[i - 1].1,
            ));
        }
    }
    assert(lines(s) =~= seq![x] + lines(y));
}

} // verus!
