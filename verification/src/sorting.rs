//! Stable sorting by string keys, as `slice::sort_by` with a comparison of
//! `str`s does it.

use vstd::prelude::*;

verus! {

/// `str`'s order: character by character, a proper prefix first.
pub open spec fn seq_lt(a: Seq<char>, b: Seq<char>) -> bool
    decreases a.len(),
{
    if b.len() == 0 {
        false
    } else if a.len() == 0 {
        true
    } else if a[0] != b[0] {
        a[0] < b[0]
    } else {
        seq_lt(a.drop_first(), b.drop_first())
    }
}

/// `a < b` in `str`'s order (see `seq_lt`).
pub fn str_lt(a: &[char], b: &[char]) -> (r: bool)
    ensures
        r == seq_lt(a@, b@),
{
    let mut i: usize = 0;
    assert(a@.subrange(0, a@.len() as int) =~= a@);
    assert(b@.subrange(0, b@.len() as int) =~= b@);
    while i < a.len() && i < b.len() && a[i] == b[i]
        invariant
            i <= a@.len(),
            i <= b@.len(),
            seq_lt(a@, b@) == seq_lt(a@.subrange(i as int, a@.len() as int), b@.subrange(
                i as int,
                b@.len() as int,
            )),
        decreases a@.len() - i,
    {
        proof {
            let x = a@.subrange(i as int, a@.len() as int);
            let y = b@.subrange(i as int, b@.len() as int);
            assert(x.drop_first() =~= a@.subrange(i + 1, a@.len() as int));
            assert(y.drop_first() =~= b@.subrange(i + 1, b@.len() as int));
        }
        i = i + 1;
    }
    proof {
        let x = a@.subrange(i as int, a@.len() as int);
        let y = b@.subrange(i as int, b@.len() as int);
        if i < a@.len() && i < b@.len() {
            assert(x[0] == a@[i as int]);
            assert(y[0] == b@[i as int]);
        }
    }
    if i == b.len() {
        false
    } else if i == a.len() {
        true
    } else {
        a[i] < b[i]
    }
}

/// Whether an item with key `x` goes strictly before one with key `y`:
/// ascending, or descending when `desc`.
pub open spec fn goes_before(x: Seq<char>, y: Seq<char>, desc: bool) -> bool {
    if desc {
        seq_lt(y, x)
    } else {
        seq_lt(x, y)
    }
}

/// Where a new item with key `k` goes among the sorted keys `ks`: before the
/// first key from `j` on that it goes strictly before, or at the end.
pub open spec fn insert_at(ks: Seq<Seq<char>>, k: Seq<char>, desc: bool, j: int) -> int
    decreases ks.len() - j,
{
    if j < 0 || j >= ks.len() {
        ks.len() as int
    } else if goes_before(k, ks[j], desc) {
        j
    } else {
        insert_at(ks, k, desc, j + 1)
    }
}

/// The stable sort of `items` by `keys`: items are inserted one after the
/// other, each after every earlier item it does not go strictly before.
/// Returns the sorted items with their keys.
pub open spec fn stable_sorted<T>(items: Seq<T>, keys: Seq<Seq<char>>, desc: bool) -> (
    Seq<T>,
    Seq<Seq<char>>,
)
    decreases items.len(),
{
    if items.len() == 0 || keys.len() != items.len() {
        (Seq::empty(), Seq::empty())
    } else {
        let prev = stable_sorted(items.drop_last(), keys.drop_last(), desc);
        let p = insert_at(prev.1, keys.last(), desc, 0);
        (prev.0.insert(p, items.last()), prev.1.insert(p, keys.last()))
    }
}

pub proof fn lemma_insert_at_bounds(ks: Seq<Seq<char>>, k: Seq<char>, desc: bool, j: int)
    requires
        0 <= j <= ks.len(),
    ensures
        j <= insert_at(ks, k, desc, j) <= ks.len(),
    decreases ks.len() - j,
{
    if j < ks.len() && !goes_before(k, ks[j], desc) {
        lemma_insert_at_bounds(ks, k, desc, j + 1);
    }
}

pub proof fn lemma_stable_sorted_len<T>(items: Seq<T>, keys: Seq<Seq<char>>, desc: bool)
    requires
        items.len() == keys.len(),
    ensures
        stable_sorted(items, keys, desc).0.len() == items.len(),
        stable_sorted(items, keys, desc).1.len() == items.len(),
    decreases items.len(),
{
    if items.len() > 0 {
        lemma_stable_sorted_len(items.drop_last(), keys.drop_last(), desc);
        let prev = stable_sorted(items.drop_last(), keys.drop_last(), desc);
        lemma_insert_at_bounds(prev.1, keys.last(), desc, 0);
    }
}

/// Whether key `x` goes strictly before key `y` (see `goes_before`).
pub fn key_before(x: &[char], y: &[char], desc: bool) -> (r: bool)
    ensures
        r == goes_before(x@, y@, desc),
{
    if desc {
        str_lt(y, x)
    } else {
        str_lt(x, y)
    }
}

/// The views of a vector of character vectors.
pub open spec fn key_views(v: Seq<Vec<char>>) -> Seq<Seq<char>> {
    v.map_values(|k: Vec<char>| k@)
}

/// Sorts `items` by `keys` (one key per item), stably (see `stable_sorted`).
pub fn sort_by_keys<T>(items: Vec<T>, keys: Vec<Vec<char>>, desc: bool) -> (r: Vec<T>)
    requires
        items@.len() == keys@.len(),
    ensures
        r@ == stable_sorted(items@, key_views(keys@), desc).0,
{
    let ghost all_items = items@;
    let ghost all_keys = key_views(keys@);
    let ghost n = items@.len();
    let mut items = items;
    let mut keys = keys;
    let mut out: Vec<T> = Vec::new();
    let mut out_keys: Vec<Vec<char>> = Vec::new();
    let ghost mut i: int = 0;
    while items.len() > 0
        invariant
            0 <= i <= n,
            n == all_items.len(),
            all_keys.len() == n,
            items@ == all_items.subrange(i, n as int),
            key_views(keys@) == all_keys.subrange(i, n as int),
            items@.len() == keys@.len(),
            (out@, key_views(out_keys@)) == stable_sorted(
                all_items.take(i),
                all_keys.take(i),
                desc,
            ),
        decreases items@.len(),
    {
        let ghost before = keys@;
        let item = items.remove(0);
        let key = keys.remove(0);
        proof {
            assert(key@ == all_keys[i]) by {
                assert(key_views(before)[0] == all_keys.subrange(i, n as int)[0]);
            }
            lemma_stable_sorted_len(all_items.take(i), all_keys.take(i), desc);
        }
        let ghost sk = key_views(out_keys@);
        let mut p: usize = 0;
        while p < out_keys.len() && !key_before(&key, &out_keys[p], desc)
            invariant
                p <= out_keys@.len(),
                sk == key_views(out_keys@),
                insert_at(sk, key@, desc, 0) == insert_at(sk, key@, desc, p as int),
            decreases out_keys@.len() - p,
        {
            p = p + 1;
        }
        proof {
            assert(all_items.take(i + 1).drop_last() =~= all_items.take(i));
            assert(all_keys.take(i + 1).drop_last() =~= all_keys.take(i));
            assert(all_items.take(i + 1).last() == item);
            assert(all_keys.take(i + 1).last() == key@);
        }
        let ghost ok_before = out_keys@;
        out.insert(p, item);
        out_keys.insert(p, key);
        proof {
            assert(out_keys@ == ok_before.insert(p as int, key));
            assert forall|j: int| 0 <= j < out_keys@.len() implies #[trigger] key_views(
                out_keys@,
            )[j] == sk.insert(p as int, key@)[j] by {
                if j < p {
                    assert(out_keys@[j] == ok_before[j]);
                } else if j > p {
                    assert(out_keys@[j] == ok_before[j - 1]);
                }
            }
            assert(key_views(out_keys@) =~= sk.insert(p as int, key@));
            assert forall|j: int| 0 <= j < keys@.len() implies #[trigger] key_views(keys@)[j]
                == all_keys.subrange(i + 1, n as int)[j] by {
                assert(keys@[j] == before[j + 1]);
                assert(key_views(before)[j + 1] == all_keys.subrange(i, n as int)[j + 1]);
            }
            i = i + 1;
            assert(items@ =~= all_items.subrange(i, n as int));
            assert(key_views(keys@) =~= all_keys.subrange(i, n as int));
        }
    }
    proof {
        assert(all_items.take(n as int) =~= all_items);
        assert(all_keys.take(n as int) =~= all_keys);
    }
    out
}

/// Sorting items and then mapping them is mapping them and then sorting by the
/// same keys.
pub proof fn lemma_sorted_map<T, U>(items: Seq<T>, keys: Seq<Seq<char>>, desc: bool, f: spec_fn(T) -> U)
    requires
        items.len() == keys.len(),
    ensures
        stable_sorted(items, keys, desc).0.map_values(f) == stable_sorted(
            items.map_values(f),
            keys,
            desc,
        ).0,
        stable_sorted(items, keys, desc).1 == stable_sorted(items.map_values(f), keys, desc).1,
    decreases items.len(),
{
    if items.len() > 0 {
        assert(items.map_values(f).drop_last() =~= items.drop_last().map_values(f));
        lemma_sorted_map(items.drop_last(), keys.drop_last(), desc, f);
        lemma_stable_sorted_len(items.drop_last(), keys.drop_last(), desc);
        let prev = stable_sorted(items.drop_last(), keys.drop_last(), desc);
        let p = insert_at(prev.1, keys.last(), desc, 0);
        lemma_insert_at_bounds(prev.1, keys.last(), desc, 0);
        assert(prev.0.insert(p, items.last()).map_values(f) =~= prev.0.map_values(f).insert(
            p,
            f(items.last()),
        ));
    }
}

// ---------------------------------------------------------------------------
// The order of keys
// ---------------------------------------------------------------------------

pub proof fn lemma_seq_lt_irreflexive(a: Seq<char>)
    ensures
        !seq_lt(a, a),
    decreases a.len(),
{
    if a.len() > 0 {
        lemma_seq_lt_irreflexive(a.drop_first());
    }
}

pub proof fn lemma_seq_lt_transitive(a: Seq<char>, b: Seq<char>, c: Seq<char>)
    requires
        seq_lt(a, b),
        seq_lt(b, c),
    ensures
        seq_lt(a, c),
    decreases a.len(),
{
    if a.len() > 0 && a[0] == b[0] && b[0] == c[0] {
        lemma_seq_lt_transitive(a.drop_first(), b.drop_first(), c.drop_first());
    }
}

pub proof fn lemma_seq_lt_asymmetric(a: Seq<char>, b: Seq<char>)
    requires
        seq_lt(a, b),
    ensures
        !seq_lt(b, a),
{
    if seq_lt(b, a) {
        lemma_seq_lt_transitive(a, b, a);
        lemma_seq_lt_irreflexive(a);
    }
}

/// Two different keys are ordered one way or the other.
pub proof fn lemma_seq_lt_total(a: Seq<char>, b: Seq<char>)
    requires
        a != b,
    ensures
        seq_lt(a, b) || seq_lt(b, a),
    decreases a.len(),
{
    if a.len() == 0 && b.len() == 0 {
        assert(a =~= b);
    } else if a.len() > 0 && b.len() > 0 && a[0] == b[0] {
        if a.drop_first() =~= b.drop_first() {
            assert(a =~= seq![a[0]] + a.drop_first());
            assert(b =~= seq![b[0]] + b.drop_first());
            assert(a =~= b);
        } else {
            lemma_seq_lt_total(a.drop_first(), b.drop_first());
        }
    }
}

proof fn lemma_goes_before_transitive(x: Seq<char>, y: Seq<char>, z: Seq<char>, desc: bool)
    requires
        goes_before(x, y, desc),
        goes_before(y, z, desc),
    ensures
        goes_before(x, z, desc),
{
    if desc {
        lemma_seq_lt_transitive(z, y, x);
    } else {
        lemma_seq_lt_transitive(x, y, z);
    }
}

proof fn lemma_goes_before_asymmetric(x: Seq<char>, y: Seq<char>, desc: bool)
    requires
        goes_before(x, y, desc),
    ensures
        !goes_before(y, x, desc),
{
    if desc {
        lemma_seq_lt_asymmetric(y, x);
    } else {
        lemma_seq_lt_asymmetric(x, y);
    }
}

/// Keys in order: no key goes strictly before one that precedes it.
pub open spec fn keys_in_order(ks: Seq<Seq<char>>, desc: bool) -> bool {
    forall|i: int, j: int| 0 <= i < j < ks.len() ==> !goes_before(#[trigger] ks[j], #[trigger] ks[i], desc)
}

proof fn lemma_insert_at_props(ks: Seq<Seq<char>>, k: Seq<char>, desc: bool, j0: int)
    requires
        0 <= j0 <= ks.len(),
    ensures
        j0 <= insert_at(ks, k, desc, j0) <= ks.len(),
        forall|j: int| j0 <= j < insert_at(ks, k, desc, j0) ==> !goes_before(k, #[trigger] ks[j], desc),
        insert_at(ks, k, desc, j0) < ks.len() ==> goes_before(k, ks[insert_at(ks, k, desc, j0)], desc),
    decreases ks.len() - j0,
{
    if j0 < ks.len() && !goes_before(k, ks[j0], desc) {
        lemma_insert_at_props(ks, k, desc, j0 + 1);
    }
}

proof fn lemma_insert_keeps_order(ks: Seq<Seq<char>>, k: Seq<char>, desc: bool)
    requires
        keys_in_order(ks, desc),
    ensures
        keys_in_order(ks.insert(insert_at(ks, k, desc, 0), k), desc),
{
    let p = insert_at(ks, k, desc, 0);
    lemma_insert_at_props(ks, k, desc, 0);
    let n = ks.insert(p, k);
    assert forall|i: int, j: int| 0 <= i < j < n.len() implies !goes_before(
        #[trigger] n[j],
        #[trigger] n[i],
        desc,
    ) by {
        if j < p {
            assert(n[i] == ks[i] && n[j] == ks[j]);
        } else if j == p {
            assert(n[i] == ks[i]);
        } else if i > p {
            assert(n[i] == ks[i - 1] && n[j] == ks[j - 1]);
        } else if i == p {
            assert(n[j] == ks[j - 1]);
            if goes_before(ks[j - 1], k, desc) {
                if j - 1 == p {
                    lemma_goes_before_asymmetric(k, ks[p], desc);
                } else {
                    lemma_goes_before_transitive(ks[j - 1], k, ks[p], desc);
                }
            }
        } else {
            assert(n[i] == ks[i] && n[j] == ks[j - 1]);
        }
    }
}

/// Law: the keys of a stable sort are in order, and the sort keeps every
/// item (it is a permutation of them).
pub proof fn law_stable_sort_ordered<T>(items: Seq<T>, keys: Seq<Seq<char>>, desc: bool)
    requires
        items.len() == keys.len(),
    ensures
        keys_in_order(stable_sorted(items, keys, desc).1, desc),
        stable_sorted(items, keys, desc).0.to_multiset() == items.to_multiset(),
        stable_sorted(items, keys, desc).1.to_multiset() == keys.to_multiset(),
    decreases items.len(),
{
    if items.len() == 0 {
        assert(stable_sorted(items, keys, desc).0 =~= items);
        assert(stable_sorted(items, keys, desc).1 =~= keys);
    } else {
        law_stable_sort_ordered(items.drop_last(), keys.drop_last(), desc);
        lemma_stable_sorted_len(items.drop_last(), keys.drop_last(), desc);
        let prev = stable_sorted(items.drop_last(), keys.drop_last(), desc);
        let p = insert_at(prev.1, keys.last(), desc, 0);
        lemma_insert_at_bounds(prev.1, keys.last(), desc, 0);
        lemma_insert_keeps_order(prev.1, keys.last(), desc);
        vstd::seq_lib::to_multiset_insert(prev.0, p, items.last());
        vstd::seq_lib::to_multiset_insert(prev.1, p, keys.last());
        vstd::seq_lib::to_multiset_build(items.drop_last(), items.last());
        vstd::seq_lib::to_multiset_build(keys.drop_last(), keys.last());
        assert(items.drop_last().push(items.last()) =~= items);
        assert(keys.drop_last().push(keys.last()) =~= keys);
    }
}

/// Law: when each key is made from its item, each sorted key is made from the
/// sorted item beside it.
pub proof fn law_stable_sort_keys_follow_items<T>(items: Seq<T>, f: spec_fn(T) -> Seq<char>, desc: bool)
    ensures
        stable_sorted(items, items.map_values(f), desc).1 == stable_sorted(
            items,
            items.map_values(f),
            desc,
        ).0.map_values(f),
    decreases items.len(),
{
    let keys = items.map_values(f);
    if items.len() > 0 {
        assert(keys.drop_last() =~= items.drop_last().map_values(f));
        law_stable_sort_keys_follow_items(items.drop_last(), f, desc);
        lemma_stable_sorted_len(items.drop_last(), keys.drop_last(), desc);
        let prev = stable_sorted(items.drop_last(), keys.drop_last(), desc);
        let p = insert_at(prev.1, keys.last(), desc, 0);
        lemma_insert_at_bounds(prev.1, keys.last(), desc, 0);
        assert(prev.0.insert(p, items.last()).map_values(f) =~= prev.1.insert(p, keys.last()));
    } else {
        assert(stable_sorted(items, keys, desc).1 =~= stable_sorted(items, keys, desc).0.map_values(f));
    }
}

/// The positions `0..n`.
pub open spec fn positions(n: nat) -> Seq<int> {
    Seq::new(n, |i: int| i)
}

/// Law: the sort is stable. Sorting the positions of the items gives the order
/// the items are sorted in, and items with equal keys keep their relative
/// order.
pub proof fn law_stable_sort_is_stable<T>(items: Seq<T>, keys: Seq<Seq<char>>, desc: bool)
    requires
        items.len() == keys.len(),
    ensures
        ({
            let order = stable_sorted(positions(items.len()), keys, desc);
            &&& stable_sorted(items, keys, desc).0 == order.0.map_values(|i: int| items[i])
            &&& stable_sorted(items, keys, desc).1 == order.1
            &&& forall|a: int, b: int|
                0 <= a < b < order.0.len() && order.1[a] == order.1[b] ==> #[trigger] order.0[a]
                    < #[trigger] order.0[b]
            &&& forall|a: int| 0 <= a < order.0.len() ==> 0 <= #[trigger] order.0[a] < items.len()
        }),
    decreases items.len(),
{
    let n = items.len();
    let order = stable_sorted(positions(n), keys, desc);
    lemma_stable_sorted_len(positions(n), keys, desc);
    lemma_stable_sorted_len(items, keys, desc);
    if n == 0 {
        assert(stable_sorted(items, keys, desc).0 =~= order.0.map_values(|i: int| items[i]));
    } else {
        let pi = items.drop_last();
        let pk = keys.drop_last();
        law_stable_sort_is_stable(pi, pk, desc);
        assert(positions(n).drop_last() =~= positions((n - 1) as nat));
        let prev_o = stable_sorted(positions((n - 1) as nat), pk, desc);
        let prev_i = stable_sorted(pi, pk, desc);
        lemma_stable_sorted_len(positions((n - 1) as nat), pk, desc);
        lemma_stable_sorted_len(pi, pk, desc);
        let p = insert_at(prev_o.1, keys.last(), desc, 0);
        lemma_insert_at_props(prev_o.1, keys.last(), desc, 0);
        law_stable_sort_ordered(positions((n - 1) as nat), pk, desc);
        assert(positions(n).last() == n - 1);
        // The items follow the positions.
        assert forall|a: int|
            #![trigger prev_o.0[a]]
            0 <= a < prev_o.0.len() implies prev_o.0.map_values(|i: int| items[i])[a]
                == prev_o.0.map_values(|i: int| pi[i])[a] by {
            assert(0 <= prev_o.0[a] < n - 1);
        }
        assert(prev_o.0.map_values(|i: int| items[i]) =~= prev_o.0.map_values(|i: int| pi[i]));
        assert(prev_o.0.insert(p, n - 1).map_values(|i: int| items[i]) =~= prev_i.0.insert(
            p,
            items.last(),
        ));
        // Stability.
        let o = prev_o.0.insert(p, n - 1);
        let ks = prev_o.1.insert(p, keys.last());
        assert forall|a: int, b: int|
            0 <= a < b < o.len() && ks[a] == ks[b] implies #[trigger] o[a] < #[trigger] o[b] by {
            if b < p {
                assert(o[a] == prev_o.0[a] && o[b] == prev_o.0[b]);
                assert(ks[a] == prev_o.1[a] && ks[b] == prev_o.1[b]);
            } else if b == p {
                assert(o[a] == prev_o.0[a]);
            } else if a > p {
                assert(o[a] == prev_o.0[a - 1] && o[b] == prev_o.0[b - 1]);
                assert(ks[a] == prev_o.1[a - 1] && ks[b] == prev_o.1[b - 1]);
            } else if a == p {
                assert(ks[b] == prev_o.1[b - 1]);
                if b - 1 == p {
                    lemma_goes_before_asymmetric(keys.last(), prev_o.1[p], desc);
                    lemma_seq_lt_irreflexive(keys.last());
                } else {
                    assert(!goes_before(prev_o.1[b - 1], prev_o.1[p], desc));
                    lemma_seq_lt_irreflexive(keys.last());
                }
                assert(false);
            } else {
                assert(o[a] == prev_o.0[a] && o[b] == prev_o.0[b - 1]);
                assert(ks[a] == prev_o.1[a] && ks[b] == prev_o.1[b - 1]);
            }
        }
        assert forall|a: int| 0 <= a < o.len() implies 0 <= #[trigger] o[a] < n by {
            if a < p {
                assert(o[a] == prev_o.0[a]);
            } else if a > p {
                assert(o[a] == prev_o.0[a - 1]);
            }
        }
    }
}

} // verus!
