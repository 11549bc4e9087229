//! The order of songs: text compared character by character, and the stable
//! sort of a playlist by each song's `(artist, title)` key.
use vstd::prelude::*;
use crate::library::{song_sort_key, song_sort_key_spec};
use crate::text::{chars_of, seq_eq};
use crate::video::views;

verus! {

/// `a` comes before `b` when compared character by character by code point,
/// a proper prefix first (the order of `str`).
pub open spec fn chars_lt(a: Seq<char>, b: Seq<char>) -> bool
    decreases a.len(),
{
    if a.len() == 0 {
        b.len() > 0
    } else if b.len() == 0 {
        false
    } else if a[0] != b[0] {
        a[0] < b[0]
    } else {
        chars_lt(a.drop_first(), b.drop_first())
    }
}

pub proof fn lemma_chars_lt_irreflexive(a: Seq<char>)
    ensures
        !chars_lt(a, a),
    decreases a.len(),
{
    if a.len() > 0 {
        lemma_chars_lt_irreflexive(a.drop_first());
    }
}

pub proof fn lemma_chars_lt_asymmetric(a: Seq<char>, b: Seq<char>)
    ensures
        chars_lt(a, b) ==> !chars_lt(b, a),
    decreases a.len(),
{
    if a.len() > 0 && b.len() > 0 && a[0] == b[0] {
        lemma_chars_lt_asymmetric(a.drop_first(), b.drop_first());
    }
}

pub proof fn lemma_chars_lt_total(a: Seq<char>, b: Seq<char>)
    ensures
        a == b || chars_lt(a, b) || chars_lt(b, a),
    decreases a.len(),
{
    if a.len() == 0 && b.len() == 0 {
        assert(a =~= b);
    } else if a.len() > 0 && b.len() > 0 && a[0] == b[0] {
        lemma_chars_lt_total(a.drop_first(), b.drop_first());
        if a.drop_first() == b.drop_first() {
            assert(a.drop_first().len() == b.drop_first().len());
            assert(a.len() == b.len());
            assert forall|i: int| 0 <= i < a.len() implies a[i] == b[i] by {
                if i > 0 {
                    assert(a[i] == a.drop_first()[i - 1]);
                    assert(b[i] == b.drop_first()[i - 1]);
                    assert(a.drop_first()[i - 1] == b.drop_first()[i - 1]);
                }
            }
            assert(a =~= b);
        }
    }
}

pub proof fn lemma_chars_lt_transitive(a: Seq<char>, b: Seq<char>, c: Seq<char>)
    requires
        chars_lt(a, b),
        chars_lt(b, c),
    ensures
        chars_lt(a, c),
    decreases a.len(),
{
    if a.len() > 0 && a[0] == b[0] && b[0] == c[0] {
        lemma_chars_lt_transitive(a.drop_first(), b.drop_first(), c.drop_first());
    }
}

/// A song's place in the library order: its `(artist, title)` sort key.
pub open spec fn song_key(p: Seq<char>) -> (Seq<char>, Seq<char>) {
    song_sort_key_spec(p)
}

/// Key `x` comes before key `y`: by artist, then by title.
pub open spec fn key_lt(x: (Seq<char>, Seq<char>), y: (Seq<char>, Seq<char>)) -> bool {
    chars_lt(x.0, y.0) || (x.0 == y.0 && chars_lt(x.1, y.1))
}

pub proof fn lemma_key_lt_order(x: (Seq<char>, Seq<char>), y: (Seq<char>, Seq<char>), z: (
    Seq<char>,
    Seq<char>,
))
    ensures
        !key_lt(x, x),
        key_lt(x, y) ==> !key_lt(y, x),
        x == y || key_lt(x, y) || key_lt(y, x),
        key_lt(x, y) && key_lt(y, z) ==> key_lt(x, z),
{
    lemma_chars_lt_irreflexive(x.0);
    lemma_chars_lt_irreflexive(x.1);
    lemma_chars_lt_asymmetric(x.0, y.0);
    lemma_chars_lt_asymmetric(x.1, y.1);
    lemma_chars_lt_total(x.0, y.0);
    lemma_chars_lt_total(x.1, y.1);
    if key_lt(x, y) && key_lt(y, z) {
        if chars_lt(x.0, y.0) && chars_lt(y.0, z.0) {
            lemma_chars_lt_transitive(x.0, y.0, z.0);
        }
        if chars_lt(x.1, y.1) && chars_lt(y.1, z.1) {
            lemma_chars_lt_transitive(x.1, y.1, z.1);
        }
    }
}

/// A key to sort by: two texts, compared the first, then the second.
pub type SortKey = (Seq<char>, Seq<char>);

/// The key of a path in plain text order (the order of `String`).
pub open spec fn path_key(p: Seq<char>) -> SortKey {
    (p, seq![])
}

/// Where `x` goes among entries sorted by `key`: before the first one whose
/// key is greater, so that entries with equal keys keep their order.
pub open spec fn ins_pos<V>(s: Seq<V>, x: V, key: spec_fn(V) -> SortKey) -> int
    decreases s.len(),
{
    if s.len() == 0 {
        0
    } else if key_lt(key(x), key(s[0])) {
        0
    } else {
        1 + ins_pos(s.drop_first(), x, key)
    }
}

/// Sorted entries with one more put in its place.
pub open spec fn insert_sorted<V>(s: Seq<V>, x: V, key: spec_fn(V) -> SortKey) -> Seq<V> {
    s.insert(ins_pos(s, x, key), x)
}

/// The entries in `key` order, entries with equal keys in their first order
/// (what a stable sort by the key gives).
pub open spec fn sorted_by<V>(s: Seq<V>, key: spec_fn(V) -> SortKey) -> Seq<V>
    decreases s.len(),
{
    if s.len() == 0 {
        s
    } else {
        insert_sorted(sorted_by(s.drop_last(), key), s.last(), key)
    }
}

/// No entry comes after one whose key is greater.
pub open spec fn in_key_order<V>(s: Seq<V>, key: spec_fn(V) -> SortKey) -> bool {
    forall|i: int, j: int| 0 <= i < j < s.len() ==> !key_lt(#[trigger] key(s[j]), #[trigger] key(s[i]))
}

/// The songs in library order (`sort_by_key(song_sort_key)`).
pub open spec fn sort_songs_spec(s: Seq<Seq<char>>) -> Seq<Seq<char>> {
    sorted_by(s, |p: Seq<char>| song_key(p))
}

/// The paths in text order (`sort()`).
pub open spec fn sort_paths_spec(s: Seq<Seq<char>>) -> Seq<Seq<char>> {
    sorted_by(s, |p: Seq<char>| path_key(p))
}

pub proof fn lemma_ins_pos<V>(s: Seq<V>, x: V, key: spec_fn(V) -> SortKey)
    ensures
        0 <= ins_pos(s, x, key) <= s.len(),
        forall|j: int| 0 <= j < ins_pos(s, x, key) ==> !key_lt(key(x), #[trigger] key(s[j])),
        ins_pos(s, x, key) < s.len() ==> key_lt(key(x), key(s[ins_pos(s, x, key)])),
    decreases s.len(),
{
    if s.len() > 0 && !key_lt(key(x), key(s[0])) {
        lemma_ins_pos(s.drop_first(), x, key);
        assert forall|j: int| 1 <= j < s.len() implies s.drop_first()[j - 1] == s[j] by {}
    }
}

proof fn lemma_ins_pos_unique<V>(s: Seq<V>, x: V, key: spec_fn(V) -> SortKey, p: int)
    requires
        0 <= p <= s.len(),
        forall|j: int| 0 <= j < p ==> !key_lt(key(x), #[trigger] key(s[j])),
        p < s.len() ==> key_lt(key(x), key(s[p])),
    ensures
        ins_pos(s, x, key) == p,
    decreases s.len(),
{
    if s.len() > 0 && p > 0 {
        let t = s.drop_first();
        assert forall|j: int| 0 <= j < p - 1 implies !key_lt(key(x), #[trigger] key(t[j])) by {
            assert(t[j] == s[j + 1]);
        }
        if p < s.len() {
            assert(t[p - 1] == s[p]);
        }
        lemma_ins_pos_unique(t, x, key, p - 1);
    }
}

pub proof fn lemma_insert_sorted<V>(s: Seq<V>, x: V, key: spec_fn(V) -> SortKey)
    requires
        in_key_order(s, key),
    ensures
        in_key_order(insert_sorted(s, x, key), key),
        insert_sorted(s, x, key).to_multiset() == s.to_multiset().insert(x),
{
    let p = ins_pos(s, x, key);
    lemma_ins_pos(s, x, key);
    let t = insert_sorted(s, x, key);
    assert forall|i: int, j: int| 0 <= i < j < t.len() implies !key_lt(
        #[trigger] key(t[j]),
        #[trigger] key(t[i]),
    ) by {
        if i < p && j == p {
            lemma_key_lt_order(key(x), key(s[i]), key(s[i]));
        } else if i < p && j > p {
            assert(t[j] == s[j - 1]);
        } else if i == p {
            assert(t[j] == s[j - 1]);
            lemma_key_lt_order(key(s[j - 1]), key(x), key(s[p]));
            if key_lt(key(s[j - 1]), key(x)) {
                assert(key_lt(key(s[j - 1]), key(s[p])));
                if j - 1 > p {
                    assert(!key_lt(key(s[j - 1]), key(s[p])));
                }
            }
        } else if i > p {
            assert(t[i] == s[i - 1]);
            assert(t[j] == s[j - 1]);
        }
    }
    assert(t.to_multiset() == s.to_multiset().insert(x)) by {
        broadcast use vstd::seq_lib::to_multiset_insert;

    }
}

/// Sorting by a key puts the entries in key order and keeps every entry.
pub proof fn sort_orders_and_keeps<V>(s: Seq<V>, key: spec_fn(V) -> SortKey)
    ensures
        in_key_order(sorted_by(s, key), key),
        sorted_by(s, key).to_multiset() == s.to_multiset(),
        sorted_by(s, key).len() == s.len(),
    decreases s.len(),
{
    if s.len() > 0 {
        sort_orders_and_keeps(s.drop_last(), key);
        lemma_insert_sorted(sorted_by(s.drop_last(), key), s.last(), key);
        lemma_ins_pos(sorted_by(s.drop_last(), key), s.last(), key);
        assert(s.to_multiset() == s.drop_last().to_multiset().insert(s.last())) by {
            broadcast use vstd::seq_lib::to_multiset_build;

            assert(s =~= s.drop_last().push(s.last()));
        }
    }
}

/// Whether `a` comes before `b` character by character.
pub fn chars_less(a: &Vec<char>, b: &Vec<char>) -> (r: bool)
    ensures
        r == chars_lt(a@, b@),
{
    let mut i: usize = 0;
    assert(a@.skip(0) =~= a@);
    assert(b@.skip(0) =~= b@);
    while i < a.len() && i < b.len()
        invariant
            i <= a.len(),
            i <= b.len(),
            chars_lt(a@, b@) == chars_lt(a@.skip(i as int), b@.skip(i as int)),
        decreases a.len() - i,
    {
        assert(a@.skip(i as int)[0] == a@[i as int]);
        assert(b@.skip(i as int)[0] == b@[i as int]);
        if a[i] != b[i] {
            return a[i] < b[i];
        }
        assert(a@.skip(i as int).drop_first() =~= a@.skip(i + 1));
        assert(b@.skip(i as int).drop_first() =~= b@.skip(i + 1));
        i += 1;
    }
    i == a.len() && i < b.len()
}

fn key_less(x: &(Vec<char>, Vec<char>), y: &(Vec<char>, Vec<char>)) -> (r: bool)
    ensures
        r == key_lt((x.0@, x.1@), (y.0@, y.1@)),
{
    chars_less(&x.0, &y.0) || (seq_eq(&x.0, &y.0) && chars_less(&x.1, &y.1))
}

/// The views of the items.
pub open spec fn vw<T: View>(s: Seq<T>) -> Seq<T::V> {
    s.map_values(|t: T| t@)
}

/// Sorts `items` stably by the keys `keys` (`keys[i]` is the key of `items[i]`).
pub fn sort_with_keys<T: View>(
    items: Vec<T>,
    keys: Vec<(Vec<char>, Vec<char>)>,
    Ghost(key): Ghost<spec_fn(T::V) -> SortKey>,
) -> (out: Vec<T>)
    requires
        keys.len() == items.len(),
        forall|i: int|
            0 <= i < keys.len() ==> (#[trigger] keys@[i].0@, keys@[i].1@) == key(items@[i]@),
    ensures
        vw(out@) == sorted_by(vw(items@), key),
{
    let mut items = items;
    let mut keys = keys;
    let n = items.len();
    let ghost all = vw(items@);
    let mut out_keys: Vec<(Vec<char>, Vec<char>)> = Vec::new();
    let mut out: Vec<T> = Vec::new();
    while items.len() > 0
        invariant
            items.len() <= n,
            keys.len() == items.len(),
            all.len() == n,
            vw(items@) == all.skip(n - items.len()),
            forall|t: int|
                0 <= t < keys.len() ==> (#[trigger] keys@[t].0@, keys@[t].1@) == key(items@[t]@),
            vw(out@) == sorted_by(all.take(n - items.len()), key),
            out_keys.len() == out.len(),
            forall|j: int|
                0 <= j < out_keys.len() ==> (out_keys@[j].0@, out_keys@[j].1@) == key(
                    #[trigger] out@[j]@,
                ),
        decreases items.len(),
    {
        let i: usize = n - items.len();
        let ghost rest = items@;
        let ghost rest_keys = keys@;
        let item = items.remove(0);
        let k = keys.remove(0);
        let ghost x = item@;
        proof {
            assert(rest_keys[0] == k);
            assert(x == all[i as int]) by {
                assert(vw(rest)[0] == all.skip(i as int)[0]);
            }
            assert(vw(items@) =~= all.skip(i + 1)) by {
                assert forall|t: int| 0 <= t < items.len() implies vw(items@)[t] == all.skip(
                    i + 1,
                )[t] by {
                    assert(items@[t] == rest[t + 1]);
                    assert(vw(rest)[t + 1] == all.skip(i as int)[t + 1]);
                }
            }
            assert forall|t: int| 0 <= t < keys.len() implies (
                #[trigger] keys@[t].0@,
                keys@[t].1@,
            ) == key(items@[t]@) by {
                assert(keys@[t] == rest_keys[t + 1]);
                assert(items@[t] == rest[t + 1]);
            }
        }
        let ghost sorted = vw(out@);
        let mut p: usize = 0;
        while p < out.len()
            invariant
                p <= out.len(),
                out_keys.len() == out.len(),
                sorted == vw(out@),
                (k.0@, k.1@) == key(x),
                forall|j: int|
                    0 <= j < out_keys.len() ==> (out_keys@[j].0@, out_keys@[j].1@) == key(
                        #[trigger] out@[j]@,
                    ),
                forall|j: int| 0 <= j < p ==> !key_lt(key(x), #[trigger] key(sorted[j])),
            ensures
                p <= out.len(),
                forall|j: int| 0 <= j < p ==> !key_lt(key(x), #[trigger] key(sorted[j])),
                p < out.len() ==> key_lt(key(x), key(sorted[p as int])),
            decreases out.len() - p,
        {
            assert(sorted[p as int] == out@[p as int]@);
            if key_less(&k, &out_keys[p]) {
                break;
            }
            p += 1;
        }
        proof {
            if p < out.len() {
                assert(sorted[p as int] == out@[p as int]@);
            }
            lemma_ins_pos_unique(sorted, x, key, p as int);
        }
        let ghost prev_out = out@;
        let ghost prev_keys = out_keys@;
        out.insert(p, item);
        out_keys.insert(p, k);
        proof {
            assert(vw(out@) =~= sorted.insert(p as int, x));
            assert(all.take(i + 1).drop_last() =~= all.take(i as int));
            assert(all.take(i + 1).last() == x);
            assert forall|j: int| 0 <= j < out_keys.len() implies (
                out_keys@[j].0@,
                out_keys@[j].1@,
            ) == key(#[trigger] out@[j]@) by {
                if j > p {
                    assert(out@[j] == prev_out[j - 1]);
                    assert(out_keys@[j] == prev_keys[j - 1]);
                } else if j < p {
                    assert(out@[j] == prev_out[j]);
                    assert(out_keys@[j] == prev_keys[j]);
                }
            }
        }
    }
    proof {
        assert(all.take(n as int) =~= all);
    }
    out
}

/// Sorts the playlist into library order, stably by `song_sort_key`.
pub fn sort_songs(pl: &mut Vec<String>)
    ensures
        views(final(pl)@) == sort_songs_spec(views(old(pl)@)),
{
    let mut keys: Vec<(Vec<char>, Vec<char>)> = Vec::new();
    let mut i: usize = 0;
    while i < pl.len()
        invariant
            i <= pl.len(),
            keys.len() == i,
            forall|t: int| 0 <= t < i ==> (#[trigger] keys@[t].0@, keys@[t].1@) == song_key(pl@[t]@),
        decreases pl.len() - i,
    {
        let (k0, k1) = song_sort_key(pl[i].as_str());
        keys.push((chars_of(k0.as_str()), chars_of(k1.as_str())));
        assert((keys@[i as int].0@, keys@[i as int].1@) == song_key(pl@[i as int]@));
        i += 1;
    }
    let mut items: Vec<String> = Vec::new();
    std::mem::swap(&mut items, pl);
    assert(vw(items@) =~= views(items@));
    let sorted = sort_with_keys(items, keys, Ghost(|p: Seq<char>| song_key(p)));
    assert(vw(sorted@) =~= views(sorted@));
    *pl = sorted;
}

/// Sorts paths into text order (the order of `String`).
pub fn sort_paths(pl: &mut Vec<String>)
    ensures
        views(final(pl)@) == sort_paths_spec(views(old(pl)@)),
{
    let mut keys: Vec<(Vec<char>, Vec<char>)> = Vec::new();
    let mut i: usize = 0;
    while i < pl.len()
        invariant
            i <= pl.len(),
            keys.len() == i,
            forall|t: int| 0 <= t < i ==> (#[trigger] keys@[t].0@, keys@[t].1@) == path_key(pl@[t]@),
        decreases pl.len() - i,
    {
        let e: Vec<char> = Vec::new();
        keys.push((chars_of(pl[i].as_str()), e));
        assert(keys@[i as int].1@ =~= seq![]);
        assert((keys@[i as int].0@, keys@[i as int].1@) == path_key(pl@[i as int]@));
        i += 1;
    }
    let mut items: Vec<String> = Vec::new();
    std::mem::swap(&mut items, pl);
    assert(vw(items@) =~= views(items@));
    let sorted = sort_with_keys(items, keys, Ghost(|p: Seq<char>| path_key(p)));
    assert(vw(sorted@) =~= views(sorted@));
    *pl = sorted;
}

} // verus!
