//! The mathematical model of a bounded least-recently-used cache.
//!
//! A cache is modelled as a sequence of `(key, value)` pairs in recency
//! order: index 0 is the most recently used entry and the last index the
//! least recently used one.  `lru_put` and `lru_promote` say how an insert
//! and a hit transform that sequence; the caches in [`crate::cache`] state
//! their contracts over these functions.

use vstd::prelude::*;

verus! {

/// Whether some entry of `s` carries the key `k`.
pub open spec fn has_key<V>(s: Seq<(Seq<char>, V)>, k: Seq<char>) -> bool {
    exists|i: int| 0 <= i < s.len() && s[i].0 == k
}

/// The index of the first entry carrying `k`, or -1 when there is none.
pub open spec fn index_of_key<V>(s: Seq<(Seq<char>, V)>, k: Seq<char>) -> int
    decreases s.len(),
{
    if s.len() == 0 {
        -1
    } else if s[0].0 == k {
        0
    } else {
        let r = index_of_key(s.skip(1), k);
        if r == -1 {
            -1
        } else {
            r + 1
        }
    }
}

/// The value stored under `k`; meaningful only when `has_key(s, k)`.
pub open spec fn value_of<V>(s: Seq<(Seq<char>, V)>, k: Seq<char>) -> V {
    s[index_of_key(s, k)].1
}

/// `s` without the first entry carrying `k` (unchanged when absent).
pub open spec fn remove_key<V>(s: Seq<(Seq<char>, V)>, k: Seq<char>) -> Seq<(Seq<char>, V)> {
    if has_key(s, k) {
        s.remove(index_of_key(s, k))
    } else {
        s
    }
}

/// No two entries carry the same key.
pub open spec fn unique_keys<V>(s: Seq<(Seq<char>, V)>) -> bool {
    forall|i: int, j: int| 0 <= i < j < s.len() ==> s[i].0 != s[j].0
}

/// The state after inserting `(k, v)` into a cache bounded at `cap`:
/// a present key is re-valued and moved to the front; a fresh key goes to
/// the front, evicting the least recently used entry when the cache is
/// full.
pub open spec fn lru_put<V>(
    s: Seq<(Seq<char>, V)>,
    cap: nat,
    k: Seq<char>,
    v: V,
) -> Seq<(Seq<char>, V)> {
    if has_key(s, k) {
        seq![(k, v)] + remove_key(s, k)
    } else if s.len() >= cap {
        seq![(k, v)] + s.drop_last()
    } else {
        seq![(k, v)] + s
    }
}

/// The state after a hit on `k`: the entry keeps its value and moves to
/// the front.  Meaningful only when `has_key(s, k)`.
pub open spec fn lru_promote<V>(s: Seq<(Seq<char>, V)>, k: Seq<char>) -> Seq<(Seq<char>, V)> {
    seq![(k, value_of(s, k))] + remove_key(s, k)
}

/// `index_of_key` finds `k` exactly when some entry carries it.
pub proof fn lemma_index_of_key<V>(s: Seq<(Seq<char>, V)>, k: Seq<char>)
    ensures
        has_key(s, k) <==> 0 <= index_of_key(s, k) < s.len(),
        has_key(s, k) ==> s[index_of_key(s, k)].0 == k,
        has_key(s, k) ==> forall|i: int| 0 <= i < index_of_key(s, k) ==> s[i].0 != k,
    decreases s.len(),
{
    if s.len() == 0 {
    } else if s[0].0 == k {
    } else {
        lemma_index_of_key(s.skip(1), k);
        assert forall|i: int| 0 <= i < s.len() && s[i].0 == k implies i >= 1 by {}
        if has_key(s, k) {
            let w = choose|i: int| 0 <= i < s.len() && s[i].0 == k;
            assert(s.skip(1)[w - 1].0 == k);
            assert(has_key(s.skip(1), k));
            let r = index_of_key(s.skip(1), k);
            assert forall|i: int| 0 <= i < r + 1 implies s[i].0 != k by {
                if i >= 1 {
                    assert(s.skip(1)[i - 1].0 == s[i].0);
                }
            }
        } else {
            if has_key(s.skip(1), k) {
                let w = choose|i: int| 0 <= i < s.skip(1).len() && s.skip(1)[i].0 == k;
                assert(s[w + 1].0 == k);
            }
        }
    }
}

/// Removing `k` drops exactly that entry: the length shrinks by one, `k`
/// is gone (given unique keys), and every other key keeps its presence
/// and value.
pub proof fn lemma_remove_key<V>(s: Seq<(Seq<char>, V)>, k: Seq<char>)
    requires
        unique_keys(s),
        has_key(s, k),
    ensures
        remove_key(s, k).len() == s.len() - 1,
        unique_keys(remove_key(s, k)),
        !has_key(remove_key(s, k), k),
        forall|k2: Seq<char>| k2 != k ==> has_key(remove_key(s, k), k2) == has_key(s, k2),
        forall|k2: Seq<char>|
            k2 != k && has_key(s, k2) ==> value_of(remove_key(s, k), k2) == value_of(s, k2),
{
    lemma_index_of_key(s, k);
    let idx = index_of_key(s, k);
    let r = s.remove(idx);
    assert forall|i: int, j: int| 0 <= i < j < r.len() implies r[i].0 != r[j].0 by {
        assert(r[i] == (if i < idx { s[i] } else { s[i + 1] }));
        assert(r[j] == (if j < idx { s[j] } else { s[j + 1] }));
    }
    assert forall|i: int| 0 <= i < r.len() implies r[i].0 != k by {
        assert(r[i] == (if i < idx { s[i] } else { s[i + 1] }));
    }
    assert forall|k2: Seq<char>| k2 != k implies has_key(r, k2) == has_key(s, k2) by {
        if has_key(s, k2) {
            let w = choose|i: int| 0 <= i < s.len() && s[i].0 == k2;
            if w < idx {
                assert(r[w].0 == k2);
            } else {
                assert(w != idx);
                assert(r[w - 1].0 == k2);
            }
        }
        if has_key(r, k2) {
            let w = choose|i: int| 0 <= i < r.len() && r[i].0 == k2;
            assert(r[w] == (if w < idx { s[w] } else { s[w + 1] }));
        }
    }
    assert forall|k2: Seq<char>|
        k2 != k && has_key(s, k2) implies value_of(r, k2) == value_of(s, k2) by {
        lemma_index_of_key(s, k2);
        lemma_index_of_key(r, k2);
        let w = index_of_key(s, k2);
        let w2 = index_of_key(r, k2);
        assert(r[w2] == (if w2 < idx { s[w2] } else { s[w2 + 1] }));
        let orig = if w2 < idx { w2 } else { w2 + 1 };
        assert(s[orig].0 == k2);
        assert(s[w].0 == k2);
        assert(orig == w);
    }
}

/// An insert keeps the keys unique, keeps the size within the bound, and
/// leaves `(k, v)` as the most recently used entry.
pub proof fn lemma_put<V>(s: Seq<(Seq<char>, V)>, cap: nat, k: Seq<char>, v: V)
    requires
        unique_keys(s),
        s.len() <= cap,
        cap >= 1,
    ensures
        unique_keys(lru_put(s, cap, k, v)),
        lru_put(s, cap, k, v).len() <= cap,
        lru_put(s, cap, k, v)[0] == (k, v),
        has_key(lru_put(s, cap, k, v), k),
        value_of(lru_put(s, cap, k, v), k) == v,
{
    let r = lru_put(s, cap, k, v);
    if has_key(s, k) {
        lemma_remove_key(s, k);
        let t = remove_key(s, k);
        assert forall|i: int, j: int| 0 <= i < j < r.len() implies r[i].0 != r[j].0 by {
            if i == 0 {
                assert(r[j] == t[j - 1]);
                assert(t[j - 1].0 != k);
            } else {
                assert(r[i] == t[i - 1] && r[j] == t[j - 1]);
            }
        }
    } else if s.len() >= cap {
        let t = s.drop_last();
        assert forall|i: int, j: int| 0 <= i < j < r.len() implies r[i].0 != r[j].0 by {
            if i == 0 {
                assert(r[j] == t[j - 1]);
                assert(t[j - 1] == s[j - 1]);
            } else {
                assert(r[i] == s[i - 1] && r[j] == s[j - 1]);
            }
        }
    } else {
        assert forall|i: int, j: int| 0 <= i < j < r.len() implies r[i].0 != r[j].0 by {
            if i == 0 {
                assert(r[j] == s[j - 1]);
                if s[j - 1].0 == k {
                    assert(has_key(s, k));
                }
            } else {
                assert(r[i] == s[i - 1] && r[j] == s[j - 1]);
            }
        }
    }
    assert(r[0] == (k, v));
    assert(has_key(r, k));
    lemma_index_of_key(r, k);
    assert(index_of_key(r, k) == 0);
}

/// A hit on a present key evicts nothing: every entry survives, the hit
/// entry keeps its value and moves to the most recently used position.
///
/// This is the promotion law of `get`.
pub proof fn lemma_get_promotes_without_eviction<V>(s: Seq<(Seq<char>, V)>, k: Seq<char>)
    requires
        unique_keys(s),
        has_key(s, k),
    ensures
        lru_promote(s, k).len() == s.len(),
        unique_keys(lru_promote(s, k)),
        lru_promote(s, k)[0] == (k, value_of(s, k)),
        has_key(lru_promote(s, k), k),
        value_of(lru_promote(s, k), k) == value_of(s, k),
        forall|k2: Seq<char>| has_key(lru_promote(s, k), k2) == has_key(s, k2),
        forall|k2: Seq<char>|
            has_key(s, k2) ==> value_of(lru_promote(s, k), k2) == value_of(s, k2),
{
    lemma_remove_key(s, k);
    let t = remove_key(s, k);
    let r = lru_promote(s, k);
    assert forall|i: int, j: int| 0 <= i < j < r.len() implies r[i].0 != r[j].0 by {
        if i == 0 {
            assert(r[j] == t[j - 1]);
        } else {
            assert(r[i] == t[i - 1] && r[j] == t[j - 1]);
        }
    }
    assert forall|k2: Seq<char>| true implies #[trigger] has_key(r, k2) == has_key(s, k2) by {
        if has_key(t, k2) {
            let w = choose|i: int| 0 <= i < t.len() && t[i].0 == k2;
            assert(r[w + 1].0 == k2);
        }
        if k2 == k {
            assert(r[0].0 == k);
        }
        if has_key(r, k2) && k2 != k {
            let w = choose|i: int| 0 <= i < r.len() && r[i].0 == k2;
            assert(w >= 1);
            assert(t[w - 1].0 == k2);
        }
    }
    assert forall|k2: Seq<char>|
        has_key(s, k2) implies value_of(r, k2) == value_of(s, k2) by {
        lemma_index_of_key(r, k2);
        if k2 == k {
            lemma_index_of_key(r, k);
            assert(r[0].0 == k);
            assert(index_of_key(r, k) == 0);
        } else {
            let w2 = index_of_key(r, k2);
            assert(r[w2].0 == k2);
            assert(w2 >= 1);
            assert(t[w2 - 1].0 == k2);
            lemma_index_of_key(t, k2);
            assert(value_of(t, k2) == t[index_of_key(t, k2)].1);
            assert(r[w2].1 == t[w2 - 1].1);
            assert(t[index_of_key(t, k2)].0 == k2);
            assert(index_of_key(t, k2) == w2 - 1);
        }
    }
}

/// Inserting each entry of `es` in turn, starting from cache state `s`.
pub open spec fn fill_all<V>(
    s: Seq<(Seq<char>, V)>,
    cap: nat,
    es: Seq<(Seq<char>, V)>,
) -> Seq<(Seq<char>, V)>
    decreases es.len(),
{
    if es.len() == 0 {
        s
    } else {
        fill_all(lru_put(s, cap, es[0].0, es[0].1), cap, es.skip(1))
    }
}

/// Filling an unsaturated cache with fresh distinct keys stacks the
/// entries in reverse order on top of the old ones, with no eviction.
proof fn lemma_fill_all_unsaturated<V>(
    s: Seq<(Seq<char>, V)>,
    cap: nat,
    es: Seq<(Seq<char>, V)>,
)
    requires
        unique_keys(s),
        s.len() + es.len() <= cap,
        forall|i: int, j: int| 0 <= i < j < es.len() ==> es[i].0 != es[j].0,
        forall|i: int| 0 <= i < es.len() ==> !has_key(s, es[i].0),
    ensures
        fill_all(s, cap, es) =~= es.reverse() + s,
    decreases es.len(),
{
    if es.len() == 0 {
        assert(es.reverse() + s =~= s);
    } else {
        let s2 = lru_put(s, cap, es[0].0, es[0].1);
        assert(s2 == seq![es[0]] + s);
        assert forall|i: int, j: int| 0 <= i < j < s2.len() implies s2[i].0 != s2[j].0 by {
            if i == 0 {
                assert(s2[j] == s[j - 1]);
                if s[j - 1].0 == es[0].0 {
                    assert(has_key(s, es[0].0));
                }
            } else {
                assert(s2[i] == s[i - 1] && s2[j] == s[j - 1]);
            }
        }
        assert forall|i: int| 0 <= i < es.skip(1).len() implies !has_key(
            s2,
            es.skip(1)[i].0,
        ) by {
            let k2 = es.skip(1)[i].0;
            assert(k2 == es[i + 1].0);
            if has_key(s2, k2) {
                let w = choose|j: int| 0 <= j < s2.len() && s2[j].0 == k2;
                if w == 0 {
                    assert(es[0].0 == k2);
                } else {
                    assert(s[w - 1].0 == k2);
                    assert(has_key(s, k2));
                }
            }
        }
        lemma_fill_all_unsaturated(s2, cap, es.skip(1));
        assert(fill_all(s, cap, es) =~= es.skip(1).reverse() + s2);
        assert(es.skip(1).reverse() + s2 =~= es.reverse() + s);
    }
}

/// Filling an empty cache of capacity `cap` with `cap + 1` entries of
/// pairwise-distinct keys, with any values, leaves the cache exactly
/// full, and the first key inserted -- by then the least recently used
/// -- has been evicted.
///
/// This is the saturation law: `size()` equals the capacity and the
/// least-recently-used key is absent.
pub proof fn lemma_fill_to_capacity_evicts_oldest<V>(cap: nat, es: Seq<(Seq<char>, V)>)
    requires
        cap >= 1,
        es.len() == cap + 1,
        forall|i: int, j: int| 0 <= i < j < es.len() ==> es[i].0 != es[j].0,
    ensures
        fill_all(Seq::<(Seq<char>, V)>::empty(), cap, es).len() == cap,
        !has_key(fill_all(Seq::<(Seq<char>, V)>::empty(), cap, es), es[0].0),
    decreases cap,
{
    let emp = Seq::<(Seq<char>, V)>::empty();
    let front = es.take(cap as int);
    lemma_fill_all_unsaturated(emp, cap, front);
    let mid = fill_all(emp, cap, front);
    assert(mid =~= front.reverse() + emp);
    assert(mid.len() == cap);
    assert forall|i: int| 0 <= i < mid.len() implies mid[i] == es[cap - 1 - i] by {
        assert(front.reverse()[i] == front[front.len() - 1 - i]);
    }
    lemma_fill_all_split(emp, cap, front, es.skip(cap as int));
    assert(es.take(cap as int) + es.skip(cap as int) =~= es);
    let last = es[cap as int];
    let tail = es.skip(cap as int);
    assert(tail.len() == 1 && tail[0] == last);
    assert(fill_all(mid, cap, tail) == fill_all(lru_put(mid, cap, last.0, last.1), cap, tail.skip(1)));
    assert(tail.skip(1).len() == 0);
    assert(fill_all(lru_put(mid, cap, last.0, last.1), cap, tail.skip(1)) == lru_put(
        mid,
        cap,
        last.0,
        last.1,
    ));
    assert(fill_all(mid, cap, es.skip(cap as int)) == lru_put(mid, cap, last.0, last.1));
    if has_key(mid, last.0) {
        let w = choose|i: int| 0 <= i < mid.len() && mid[i].0 == last.0;
        assert(mid[w].0 == es[cap - 1 - w].0);
        assert(false);
    }
    let r = lru_put(mid, cap, last.0, last.1);
    assert(r == seq![last] + mid.drop_last());
    assert(r.len() == cap);
    if has_key(r, es[0].0) {
        let w = choose|i: int| 0 <= i < r.len() && r[i].0 == es[0].0;
        if w == 0 {
            assert(es[cap as int].0 == es[0].0);
        } else {
            assert(r[w] == mid.drop_last()[w - 1]);
            assert(mid.drop_last()[w - 1] == mid[w - 1]);
            assert(mid[w - 1].0 == es[cap - w].0);
            assert(0 < cap - w < es.len());
        }
        assert(false);
    }
}

/// Filling with a concatenation is filling with each part in turn.
proof fn lemma_fill_all_split<V>(
    s: Seq<(Seq<char>, V)>,
    cap: nat,
    a: Seq<(Seq<char>, V)>,
    b: Seq<(Seq<char>, V)>,
)
    ensures
        fill_all(s, cap, a + b) == fill_all(fill_all(s, cap, a), cap, b),
    decreases a.len(),
{
    if a.len() == 0 {
        assert(a + b =~= b);
    } else {
        let s2 = lru_put(s, cap, a[0].0, a[0].1);
        assert((a + b)[0] == a[0]);
        assert((a + b).skip(1) =~= a.skip(1) + b);
        lemma_fill_all_split(s2, cap, a.skip(1), b);
    }
}

} // verus!
