//! Deterministic ordering of query results and traversal frontiers.
//!
//! Results are carried as `(primary key, tie-break key, item)` triples and
//! sorted by insertion sort; the spec functions below define the sorted
//! sequence constructively, so that every caller's contract pins one exact
//! ordering and repeated runs cannot differ.

use vstd::prelude::*;

verus! {

/// Lexicographic order on the two numeric key components of a keyed item.
pub open spec fn key_le<T>(a: (u64, u64, T), b: (u64, u64, T)) -> bool {
    a.0 < b.0 || (a.0 == b.0 && a.1 <= b.1)
}

/// The sequence `s` with `x` inserted before the first element whose key
/// is not below `x`'s key.
pub open spec fn insert_keyed_spec<T>(x: (u64, u64, T), s: Seq<(u64, u64, T)>) -> Seq<
    (u64, u64, T),
>
    decreases s.len(),
{
    if s.len() == 0 {
        seq![x]
    } else if key_le(x, s[0]) {
        seq![x] + s
    } else {
        seq![s[0]] + insert_keyed_spec(x, s.drop_first())
    }
}

/// Insertion sort of keyed items, ascending by key.
pub open spec fn sort_keyed_spec<T>(s: Seq<(u64, u64, T)>) -> Seq<(u64, u64, T)>
    decreases s.len(),
{
    if s.len() == 0 {
        Seq::empty()
    } else {
        insert_keyed_spec(s[0], sort_keyed_spec(s.drop_first()))
    }
}

/// Inserting keeps every element and adds the new one.
pub proof fn lemma_insert_keyed_len<T>(x: (u64, u64, T), s: Seq<(u64, u64, T)>)
    ensures
        insert_keyed_spec(x, s).len() == s.len() + 1,
    decreases s.len(),
{
    if s.len() != 0 && !key_le(x, s[0]) {
        lemma_insert_keyed_len(x, s.drop_first());
    }
}

/// Sorting keeps the number of elements.
pub proof fn lemma_sort_keyed_len<T>(s: Seq<(u64, u64, T)>)
    ensures
        sort_keyed_spec(s).len() == s.len(),
    decreases s.len(),
{
    if s.len() != 0 {
        lemma_sort_keyed_len(s.drop_first());
        lemma_insert_keyed_len(s[0], sort_keyed_spec(s.drop_first()));
    }
}

fn insert_keyed<T>(x: (u64, u64, T), v: Vec<(u64, u64, T)>) -> (res: Vec<(u64, u64, T)>)
    ensures
        res@ == insert_keyed_spec(x, v@),
    decreases v.len(),
{
    let mut v = v;
    if v.len() == 0 {
        v.push(x);
        proof {
            assert(v@ =~= seq![x]);
        }
        v
    } else if x.0 < v[0].0 || (x.0 == v[0].0 && x.1 <= v[0].1) {
        let ghost orig = v@;
        v.insert(0, x);
        proof {
            assert(v@ =~= seq![x] + orig);
        }
        v
    } else {
        let ghost orig = v@;
        let head = v.remove(0);
        proof {
            assert(v@ =~= orig.drop_first());
        }
        let mut rest = insert_keyed(x, v);
        rest.insert(0, head);
        proof {
            assert(rest@ =~= seq![head] + insert_keyed_spec(x, orig.drop_first()));
        }
        rest
    }
}

/// Sorts keyed items ascending by `(primary, tie-break)` key; the result
/// is exactly the sequence `sort_keyed_spec` describes.
pub fn sort_keyed<T>(v: Vec<(u64, u64, T)>) -> (res: Vec<(u64, u64, T)>)
    ensures
        res@ == sort_keyed_spec(v@),
    decreases v.len(),
{
    let mut v = v;
    if v.len() == 0 {
        v
    } else {
        let ghost orig = v@;
        let head = v.remove(0);
        proof {
            assert(v@ =~= orig.drop_first());
        }
        let sorted = sort_keyed(v);
        insert_keyed(head, sorted)
    }
}

/// The id sequence `s` with `x` inserted before its first element not
/// below `x`.
pub open spec fn insert_id_spec(x: u64, s: Seq<u64>) -> Seq<u64>
    decreases s.len(),
{
    if s.len() == 0 {
        seq![x]
    } else if x <= s[0] {
        seq![x] + s
    } else {
        seq![s[0]] + insert_id_spec(x, s.drop_first())
    }
}

/// Insertion sort of entity ids, ascending.
pub open spec fn sort_ids_spec(s: Seq<u64>) -> Seq<u64>
    decreases s.len(),
{
    if s.len() == 0 {
        Seq::empty()
    } else {
        insert_id_spec(s[0], sort_ids_spec(s.drop_first()))
    }
}

fn insert_id(x: u64, v: Vec<u64>) -> (res: Vec<u64>)
    ensures
        res@ == insert_id_spec(x, v@),
    decreases v.len(),
{
    let mut v = v;
    if v.len() == 0 {
        v.push(x);
        proof {
            assert(v@ =~= seq![x]);
        }
        v
    } else if x <= v[0] {
        let ghost orig = v@;
        v.insert(0, x);
        proof {
            assert(v@ =~= seq![x] + orig);
        }
        v
    } else {
        let ghost orig = v@;
        let head = v.remove(0);
        proof {
            assert(v@ =~= orig.drop_first());
        }
        let mut rest = insert_id(x, v);
        rest.insert(0, head);
        proof {
            assert(rest@ =~= seq![head] + insert_id_spec(x, orig.drop_first()));
        }
        rest
    }
}

/// Sorts entity ids ascending.
pub fn sort_ids(v: Vec<u64>) -> (res: Vec<u64>)
    ensures
        res@ == sort_ids_spec(v@),
    decreases v.len(),
{
    let mut v = v;
    if v.len() == 0 {
        v
    } else {
        let ghost orig = v@;
        let head = v.remove(0);
        proof {
            assert(v@ =~= orig.drop_first());
        }
        let sorted = sort_ids(v);
        insert_id(head, sorted)
    }
}

/// The sequence `s` with every element that repeats its predecessor
/// removed; on a sorted sequence this keeps each id once.
pub open spec fn dedup_spec(s: Seq<u64>) -> Seq<u64>
    decreases s.len(),
{
    if s.len() == 0 {
        Seq::empty()
    } else if s.len() >= 2 && s[s.len() - 2] == s.last() {
        dedup_spec(s.drop_last())
    } else {
        dedup_spec(s.drop_last()) + seq![s.last()]
    }
}

fn dedup_adjacent(v: &Vec<u64>) -> (res: Vec<u64>)
    ensures
        res@ == dedup_spec(v@),
{
    let mut res: Vec<u64> = Vec::new();
    let mut i: usize = 0;
    while i < v.len()
        invariant
            i <= v.len(),
            res@ == dedup_spec(v@.take(i as int)),
            i > 0 ==> res@.len() > 0 && res@.last() == v@[i - 1],
        decreases v.len() - i,
    {
        let ghost prefix = v@.take(i as int);
        proof {
            assert(v@.take(i + 1).drop_last() =~= prefix);
            assert(v@.take(i + 1).last() == v@[i as int]);
        }
        if res.len() == 0 || res[res.len() - 1] != v[i] {
            res.push(v[i]);
        }
        i = i + 1;
    }
    proof {
        assert(v@.take(v@.len() as int) =~= v@);
    }
    res
}

/// The ascending, duplicate-free sequence of the ids in `s`.
pub open spec fn sorted_unique_spec(s: Seq<u64>) -> Seq<u64> {
    dedup_spec(sort_ids_spec(s))
}

/// Whether ids stand in ascending order.
pub open spec fn ids_sorted(s: Seq<u64>) -> bool {
    forall|i: int, j: int| 0 <= i < j < s.len() ==> #[trigger] s[i] <= #[trigger] s[j]
}

proof fn lemma_insert_id_members(x: u64, s: Seq<u64>)
    ensures
        forall|k: int|
            0 <= k < insert_id_spec(x, s).len() ==> #[trigger] insert_id_spec(x, s)[k] == x
                || s.contains(insert_id_spec(x, s)[k]),
        insert_id_spec(x, s).contains(x),
        forall|y: u64| s.contains(y) ==> #[trigger] insert_id_spec(x, s).contains(y),
    decreases s.len(),
{
    let r = insert_id_spec(x, s);
    if s.len() == 0 {
        assert(r[0] == x);
    } else if x <= s[0] {
        assert(r[0] == x);
        assert forall|k: int| 0 <= k < r.len() implies #[trigger] r[k] == x || s.contains(r[k]) by {
            if k > 0 {
                assert(r[k] == s[k - 1]);
            }
        }
        assert forall|y: u64| s.contains(y) implies #[trigger] r.contains(y) by {
            let m = choose|m: int| 0 <= m < s.len() && s[m] == y;
            assert(r[m + 1] == y);
        }
    } else {
        lemma_insert_id_members(x, s.drop_first());
        let t = insert_id_spec(x, s.drop_first());
        assert forall|k: int| 0 <= k < r.len() implies #[trigger] r[k] == x || s.contains(r[k]) by {
            if k == 0 {
                assert(r[0] == s[0]);
            } else {
                assert(r[k] == t[k - 1]);
                if t[k - 1] != x {
                    let m = choose|m: int|
                        0 <= m < s.drop_first().len() && s.drop_first()[m] == t[k - 1];
                    assert(s[m + 1] == t[k - 1]);
                }
            }
        }
        let mx = choose|m: int| 0 <= m < t.len() && t[m] == x;
        assert(r[mx + 1] == x);
        assert forall|y: u64| s.contains(y) implies #[trigger] r.contains(y) by {
            let m = choose|m: int| 0 <= m < s.len() && s[m] == y;
            if m == 0 {
                assert(r[0] == y);
            } else {
                assert(s.drop_first()[m - 1] == y);
                assert(t.contains(y));
                let m2 = choose|m2: int| 0 <= m2 < t.len() && t[m2] == y;
                assert(r[m2 + 1] == y);
            }
        }
    }
}

proof fn lemma_insert_id_sorted(x: u64, s: Seq<u64>)
    requires
        ids_sorted(s),
    ensures
        ids_sorted(insert_id_spec(x, s)),
    decreases s.len(),
{
    let r = insert_id_spec(x, s);
    if s.len() == 0 {
    } else if x <= s[0] {
        assert forall|i: int, j: int| 0 <= i < j < r.len() implies #[trigger] r[i] <= #[trigger] r[j] by {
            if i == 0 {
                assert(r[j] == s[j - 1]);
            } else {
                assert(r[i] == s[i - 1] && r[j] == s[j - 1]);
            }
        }
    } else {
        assert(ids_sorted(s.drop_first()));
        lemma_insert_id_sorted(x, s.drop_first());
        lemma_insert_id_members(x, s.drop_first());
        let t = insert_id_spec(x, s.drop_first());
        assert forall|i: int, j: int| 0 <= i < j < r.len() implies #[trigger] r[i] <= #[trigger] r[j] by {
            if i == 0 {
                assert(r[j] == t[j - 1]);
                if t[j - 1] != x {
                    let m = choose|m: int|
                        0 <= m < s.drop_first().len() && s.drop_first()[m] == t[j - 1];
                    assert(s[0] <= s[m + 1]);
                }
            } else {
                assert(r[i] == t[i - 1] && r[j] == t[j - 1]);
                assert(t[i - 1] <= t[j - 1]);
            }
        }
    }
}

proof fn lemma_sort_ids_sorted(s: Seq<u64>)
    ensures
        ids_sorted(sort_ids_spec(s)),
    decreases s.len(),
{
    if s.len() != 0 {
        lemma_sort_ids_sorted(s.drop_first());
        lemma_insert_id_sorted(s[0], sort_ids_spec(s.drop_first()));
    }
}

proof fn lemma_sort_ids_members(s: Seq<u64>)
    ensures
        forall|x: u64| #[trigger] sort_ids_spec(s).contains(x) <==> s.contains(x),
    decreases s.len(),
{
    let r = sort_ids_spec(s);
    if s.len() != 0 {
        lemma_sort_ids_members(s.drop_first());
        lemma_insert_id_members(s[0], sort_ids_spec(s.drop_first()));
        let t = sort_ids_spec(s.drop_first());
        assert forall|x: u64| #[trigger] r.contains(x) implies s.contains(x) by {
            let k = choose|k: int| 0 <= k < r.len() && r[k] == x;
            if r[k] == s[0] {
                assert(s[0] == x);
            } else {
                assert(t.contains(x));
                assert(s.drop_first().contains(x));
                let m = choose|m: int| 0 <= m < s.drop_first().len() && s.drop_first()[m] == x;
                assert(s[m + 1] == x);
            }
        }
        assert forall|x: u64| s.contains(x) implies #[trigger] r.contains(x) by {
            let m = choose|m: int| 0 <= m < s.len() && s[m] == x;
            if m == 0 {
                assert(r.contains(s[0]));
            } else {
                assert(s.drop_first()[m - 1] == x);
                assert(t.contains(x));
            }
        }
    }
}

proof fn lemma_dedup_ensures(s: Seq<u64>)
    requires
        ids_sorted(s),
    ensures
        forall|i: int, j: int|
            0 <= i < j < dedup_spec(s).len() ==> #[trigger] dedup_spec(s)[i] < #[trigger] dedup_spec(s)[j],
        forall|x: u64| #[trigger] dedup_spec(s).contains(x) <==> s.contains(x),
    decreases s.len(),
{
    let d = dedup_spec(s);
    if s.len() == 0 {
        assert forall|x: u64| #[trigger] d.contains(x) <==> s.contains(x) by {}
    } else {
        let front = s.drop_last();
        assert(ids_sorted(front));
        lemma_dedup_ensures(front);
        let df = dedup_spec(front);
        if s.len() >= 2 && s[s.len() - 2] == s.last() {
            assert(front[s.len() - 2] == s.last());
            assert(front.contains(s.last()));
            assert forall|x: u64| #[trigger] d.contains(x) <==> s.contains(x) by {
                if s.contains(x) {
                    let m = choose|m: int| 0 <= m < s.len() && s[m] == x;
                    if m < s.len() - 1 {
                        assert(front[m] == x);
                        assert(front.contains(x));
                    } else {
                        assert(x == s.last());
                    }
                    assert(df.contains(x));
                }
                if d.contains(x) {
                    assert(front.contains(x));
                    let m = choose|m: int| 0 <= m < front.len() && front[m] == x;
                    assert(s[m] == x);
                }
            }
        } else {
            assert forall|i: int, j: int| 0 <= i < j < d.len() implies #[trigger] d[i]
                < #[trigger] d[j] by {
                if j < d.len() - 1 {
                    assert(df[i] < df[j]);
                } else {
                    assert(d[j] == s.last());
                    if i < d.len() - 1 {
                        assert(d[i] == df[i]);
                        assert(df.contains(df[i]));
                        assert(front.contains(df[i]));
                        let m = choose|m: int| 0 <= m < front.len() && front[m] == d[i];
                        assert(s[m] == d[i]);
                        assert(s[m] <= s[s.len() - 2]);
                        assert(s[s.len() - 2] <= s.last());
                        assert(s[s.len() - 2] != s.last());
                    }
                }
            }
            assert forall|x: u64| #[trigger] d.contains(x) <==> s.contains(x) by {
                if s.contains(x) {
                    let m = choose|m: int| 0 <= m < s.len() && s[m] == x;
                    if m < s.len() - 1 {
                        assert(front[m] == x);
                        assert(front.contains(x));
                        assert(df.contains(x));
                        let m2 = choose|m2: int| 0 <= m2 < df.len() && df[m2] == x;
                        assert(d[m2] == x);
                    } else {
                        assert(d[d.len() - 1] == x);
                    }
                }
                if d.contains(x) {
                    let k = choose|k: int| 0 <= k < d.len() && d[k] == x;
                    if k < d.len() - 1 {
                        assert(df[k] == x);
                        assert(df.contains(x));
                        assert(front.contains(x));
                        let m = choose|m: int| 0 <= m < front.len() && front[m] == x;
                        assert(s[m] == x);
                    } else {
                        assert(x == s.last());
                    }
                }
            }
        }
    }
}

/// What `sorted_unique_spec` returns is strictly ascending — each id at
/// most once — and holds exactly the ids of its input.
pub proof fn lemma_sorted_unique_ensures(s: Seq<u64>)
    ensures
        forall|i: int, j: int|
            0 <= i < j < sorted_unique_spec(s).len() ==> #[trigger] sorted_unique_spec(s)[i]
                < #[trigger] sorted_unique_spec(s)[j],
        forall|x: u64| #[trigger] sorted_unique_spec(s).contains(x) <==> s.contains(x),
{
    lemma_sort_ids_sorted(s);
    lemma_sort_ids_members(s);
    lemma_dedup_ensures(sort_ids_spec(s));
}

/// Sorts ids ascending and drops repeats, as `sorted_unique_spec` describes.
pub fn sorted_unique(v: Vec<u64>) -> (res: Vec<u64>)
    ensures
        res@ == sorted_unique_spec(v@),
{
    let sorted = sort_ids(v);
    dedup_adjacent(&sorted)
}

/// Whether keyed items stand in ascending key order.
pub open spec fn keyed_sorted<T>(s: Seq<(u64, u64, T)>) -> bool {
    forall|i: int, j: int| 0 <= i < j < s.len() ==> key_le(#[trigger] s[i], #[trigger] s[j])
}

proof fn lemma_insert_keyed_elems<T>(x: (u64, u64, T), s: Seq<(u64, u64, T)>)
    ensures
        forall|k: int|
            0 <= k < insert_keyed_spec(x, s).len() ==> #[trigger] insert_keyed_spec(x, s)[k] == x
                || s.contains(insert_keyed_spec(x, s)[k]),
    decreases s.len(),
{
    let r = insert_keyed_spec(x, s);
    if s.len() == 0 {
    } else if key_le(x, s[0]) {
        assert forall|k: int| 0 <= k < r.len() implies #[trigger] r[k] == x || s.contains(r[k]) by {
            if k > 0 {
                assert(r[k] == s[k - 1]);
            }
        }
    } else {
        lemma_insert_keyed_elems(x, s.drop_first());
        let t = insert_keyed_spec(x, s.drop_first());
        assert forall|k: int| 0 <= k < r.len() implies #[trigger] r[k] == x || s.contains(r[k]) by {
            if k == 0 {
                assert(r[0] == s[0]);
            } else {
                assert(r[k] == t[k - 1]);
                if t[k - 1] != x {
                    let m = choose|m: int|
                        0 <= m < s.drop_first().len() && s.drop_first()[m] == t[k - 1];
                    assert(s[m + 1] == t[k - 1]);
                }
            }
        }
    }
}

/// Inserting into a key-sorted sequence keeps it key-sorted.
proof fn lemma_insert_keyed_sorted<T>(x: (u64, u64, T), s: Seq<(u64, u64, T)>)
    requires
        keyed_sorted(s),
    ensures
        keyed_sorted(insert_keyed_spec(x, s)),
    decreases s.len(),
{
    let r = insert_keyed_spec(x, s);
    if s.len() == 0 {
    } else if key_le(x, s[0]) {
        assert forall|i: int, j: int| 0 <= i < j < r.len() implies key_le(
            #[trigger] r[i],
            #[trigger] r[j],
        ) by {
            if i == 0 {
                assert(r[j] == s[j - 1]);
                if j > 1 {
                    assert(key_le(s[0], s[j - 1]));
                }
            } else {
                assert(r[i] == s[i - 1] && r[j] == s[j - 1]);
            }
        }
    } else {
        assert(keyed_sorted(s.drop_first()));
        lemma_insert_keyed_sorted(x, s.drop_first());
        lemma_insert_keyed_elems(x, s.drop_first());
        let t = insert_keyed_spec(x, s.drop_first());
        assert forall|i: int, j: int| 0 <= i < j < r.len() implies key_le(
            #[trigger] r[i],
            #[trigger] r[j],
        ) by {
            if i == 0 {
                assert(r[j] == t[j - 1]);
                if t[j - 1] == x {
                    assert(key_le(s[0], x));
                } else {
                    let m = choose|m: int|
                        0 <= m < s.drop_first().len() && s.drop_first()[m] == t[j - 1];
                    assert(key_le(s[0], s[m + 1]));
                }
            } else {
                assert(r[i] == t[i - 1] && r[j] == t[j - 1]);
                assert(key_le(t[i - 1], t[j - 1]));
            }
        }
    }
}

/// What `sort_keyed_spec` returns is sorted: ascending in the primary
/// key, ties ascending in the tie-break key.
pub proof fn lemma_sort_keyed_sorted<T>(s: Seq<(u64, u64, T)>)
    ensures
        keyed_sorted(sort_keyed_spec(s)),
    decreases s.len(),
{
    if s.len() != 0 {
        lemma_sort_keyed_sorted(s.drop_first());
        lemma_insert_keyed_sorted(s[0], sort_keyed_spec(s.drop_first()));
    }
}

proof fn lemma_insert_keyed_multiset<T>(x: (u64, u64, T), s: Seq<(u64, u64, T)>)
    ensures
        insert_keyed_spec(x, s).to_multiset() == s.to_multiset().insert(x),
    decreases s.len(),
{
    broadcast use vstd::seq_lib::group_to_multiset_ensures;

    if s.len() == 0 {
        assert(seq![x] =~= Seq::<(u64, u64, T)>::empty().push(x));
        assert(insert_keyed_spec(x, s).to_multiset() =~= s.to_multiset().insert(x));
    } else if key_le(x, s[0]) {
        vstd::seq_lib::lemma_multiset_commutative(seq![x], s);
        assert(seq![x] =~= Seq::<(u64, u64, T)>::empty().push(x));
        assert(insert_keyed_spec(x, s).to_multiset() =~= s.to_multiset().insert(x));
    } else {
        lemma_insert_keyed_multiset(x, s.drop_first());
        vstd::seq_lib::lemma_multiset_commutative(
            seq![s[0]],
            insert_keyed_spec(x, s.drop_first()),
        );
        assert(s =~= seq![s[0]] + s.drop_first());
        vstd::seq_lib::lemma_multiset_commutative(seq![s[0]], s.drop_first());
        assert(seq![s[0]] =~= Seq::<(u64, u64, T)>::empty().push(s[0]));
        assert(insert_keyed_spec(x, s).to_multiset() =~= s.to_multiset().insert(x));
    }
}

/// What `sort_keyed_spec` returns is a permutation of its input: the
/// same items with the same multiplicities, only reordered.
pub proof fn lemma_sort_keyed_permutes<T>(s: Seq<(u64, u64, T)>)
    ensures
        sort_keyed_spec(s).to_multiset() == s.to_multiset(),
    decreases s.len(),
{
    broadcast use vstd::seq_lib::group_to_multiset_ensures;

    if s.len() != 0 {
        lemma_sort_keyed_permutes(s.drop_first());
        lemma_insert_keyed_multiset(s[0], sort_keyed_spec(s.drop_first()));
        assert(s =~= seq![s[0]] + s.drop_first());
        vstd::seq_lib::lemma_multiset_commutative(seq![s[0]], s.drop_first());
        assert(seq![s[0]] =~= Seq::<(u64, u64, T)>::empty().push(s[0]));
        assert(sort_keyed_spec(s).to_multiset() =~= s.to_multiset());
    }
}

/// `s` read in ascending or, when `asc` is false, descending order.
pub open spec fn directed<T>(s: Seq<T>, asc: bool) -> Seq<T> {
    if asc {
        s
    } else {
        s.reverse()
    }
}

/// `s` cut to at most `limit` elements; an unset limit keeps everything.
pub open spec fn limited<T>(s: Seq<T>, limit: Option<usize>) -> Seq<T> {
    match limit {
        Some(l) => if l < s.len() {
            s.take(l as int)
        } else {
            s
        },
        None => s,
    }
}

/// Reverses a vector.
pub fn reverse_vec<T>(v: Vec<T>) -> (res: Vec<T>)
    ensures
        res@ == v@.reverse(),
{
    let ghost orig = v@;
    let mut v = v;
    let mut res: Vec<T> = Vec::new();
    while v.len() > 0
        invariant
            v@.len() <= orig.len(),
            v@ == orig.take(v@.len() as int),
            res@ == orig.skip(v@.len() as int).reverse(),
        decreases v@.len(),
    {
        let x = v.pop().unwrap();
        res.push(x);
        proof {
            assert(v@ =~= orig.take(v@.len() as int));
            assert(res@ =~= orig.skip(v@.len() as int).reverse());
        }
    }
    proof {
        assert(res@ =~= orig.reverse());
    }
    res
}

/// Keeps at most `limit` elements of `v`, as `limited` describes.
pub fn apply_limit<T>(v: Vec<T>, limit: &Option<usize>) -> (res: Vec<T>)
    ensures
        res@ == limited(v@, *limit),
{
    let mut v = v;
    match limit {
        Some(l) => {
            if *l < v.len() {
                let ghost orig = v@;
                v.truncate(*l);
                proof {
                    assert(v@ =~= orig.take(*l as int));
                }
            }
            v
        },
        None => v,
    }
}

/// Strips the keys off a sorted result, keeping the carried items in order.
pub fn payloads<T>(v: Vec<(u64, u64, T)>) -> (res: Vec<T>)
    ensures
        res@ == v@.map_values(|t: (u64, u64, T)| t.2),
{
    let ghost orig = v@;
    let mut v = v;
    let mut res: Vec<T> = Vec::new();
    while v.len() > 0
        invariant
            orig.len() == res@.len() + v@.len(),
            v@ == orig.skip(res@.len() as int),
            res@ == orig.take(res@.len() as int).map_values(|t: (u64, u64, T)| t.2),
        decreases v@.len(),
    {
        let ghost k = res@.len() as int;
        let x = v.remove(0);
        res.push(x.2);
        proof {
            assert(v@ =~= orig.skip(k + 1));
            assert(res@ =~= orig.take(k + 1).map_values(|t: (u64, u64, T)| t.2));
        }
    }
    proof {
        assert(res@ =~= orig.map_values(|t: (u64, u64, T)| t.2));
    }
    res
}

/// Whether `x` occurs in `v`.
pub fn contains_id(v: &Vec<u64>, x: u64) -> (res: bool)
    ensures
        res == v@.contains(x),
{
    let mut i: usize = 0;
    while i < v.len()
        invariant
            i <= v.len(),
            forall|j: int| 0 <= j < i ==> v@[j] != x,
        decreases v.len() - i,
    {
        if v[i] == x {
            return true;
        }
        i = i + 1;
    }
    false
}

} // verus!
