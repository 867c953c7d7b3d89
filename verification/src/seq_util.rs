//! Sequence specifications shared by the timeline and view-model modules:
//! a stable insertion order by an integer key.

use vstd::prelude::*;

verus! {

/// `sorted` with `x` placed after every element whose key is at most `x`'s
/// key and before the trailing run of elements whose key is greater.
pub open spec fn insert_by_key<T>(sorted: Seq<T>, x: T, key: spec_fn(T) -> int) -> Seq<T>
    decreases sorted.len(),
{
    if sorted.len() == 0 {
        seq![x]
    } else if key(sorted.last()) <= key(x) {
        sorted.push(x)
    } else {
        insert_by_key(sorted.drop_last(), x, key).push(sorted.last())
    }
}

/// Stable sort by ascending key: elements with equal keys keep their order.
pub open spec fn sort_by_key<T>(s: Seq<T>, key: spec_fn(T) -> int) -> Seq<T>
    decreases s.len(),
{
    if s.len() == 0 {
        seq![]
    } else {
        insert_by_key(sort_by_key(s.drop_last(), key), s.last(), key)
    }
}

/// Every element of the sequence is ordered by ascending key.
pub open spec fn sorted_by_key<T>(s: Seq<T>, key: spec_fn(T) -> int) -> bool {
    forall|i: int, j: int| 0 <= i <= j < s.len() ==> key(s[i]) <= key(s[j])
}

/// Inserting at position `j`, where every later element has a greater key and
/// the element before has a key at most `x`'s, is `insert_by_key`.
pub proof fn lemma_insert_by_key_at<T>(s: Seq<T>, x: T, key: spec_fn(T) -> int, j: int)
    requires
        0 <= j <= s.len(),
        forall|k: int| j <= k < s.len() ==> key(#[trigger] s[k]) > key(x),
        j > 0 ==> key(s[j - 1]) <= key(x),
    ensures
        insert_by_key(s, x, key) == s.insert(j, x),
    decreases s.len(),
{
    if s.len() == 0 {
        assert(s.insert(j, x) =~= seq![x]);
    } else if j == s.len() {
        assert(key(s.last()) <= key(x));
        assert(s.insert(j, x) =~= s.push(x));
    } else {
        assert(key(s.last()) > key(x));
        lemma_insert_by_key_at(s.drop_last(), x, key, j);
        assert(s.drop_last().insert(j, x).push(s.last()) =~= s.insert(j, x));
    }
}

/// Inserting keeps a sequence sorted, adds one element and adds only `x`.
pub proof fn lemma_insert_by_key_sorted<T>(s: Seq<T>, x: T, key: spec_fn(T) -> int)
    requires
        sorted_by_key(s, key),
    ensures
        sorted_by_key(insert_by_key(s, x, key), key),
        insert_by_key(s, x, key).len() == s.len() + 1,
        forall|y: T| #[trigger] insert_by_key(s, x, key).contains(y) <==> (s.contains(y) || y == x),
    decreases s.len(),
{
    if s.len() == 0 {
        assert(seq![x][0] == x);
    } else if key(s.last()) <= key(x) {
        assert forall|y: T| #[trigger] s.push(x).contains(y) <==> (s.contains(y) || y == x) by {
            if s.push(x).contains(y) {
                let k = choose|k: int| 0 <= k < s.push(x).len() && s.push(x)[k] == y;
                if k < s.len() {
                    assert(s[k] == y);
                }
            }
            if s.contains(y) {
                let k = choose|k: int| 0 <= k < s.len() && s[k] == y;
                assert(s.push(x)[k] == y);
            }
            if y == x {
                assert(s.push(x)[s.len() as int] == y);
            }
        }
    } else {
        let d = s.drop_last();
        assert(sorted_by_key(d, key));
        lemma_insert_by_key_sorted(d, x, key);
        let r = insert_by_key(d, x, key);
        let out = r.push(s.last());
        assert forall|y: T| #[trigger] out.contains(y) <==> (s.contains(y) || y == x) by {
            if out.contains(y) {
                let k = choose|k: int| 0 <= k < out.len() && out[k] == y;
                if k < r.len() {
                    assert(r[k] == y);
                    assert(r.contains(y));
                    if y != x {
                        assert(d.contains(y));
                        let m = choose|m: int| 0 <= m < d.len() && d[m] == y;
                        assert(s[m] == y);
                    }
                } else {
                    assert(s[s.len() - 1] == y);
                }
            }
            if s.contains(y) {
                let k = choose|k: int| 0 <= k < s.len() && s[k] == y;
                if k < s.len() - 1 {
                    assert(d[k] == y);
                    assert(d.contains(y));
                    assert(r.contains(y));
                    let m = choose|m: int| 0 <= m < r.len() && r[m] == y;
                    assert(out[m] == y);
                } else {
                    assert(out[out.len() - 1] == y);
                }
            }
            if y == x {
                assert(r.contains(x));
                let m = choose|m: int| 0 <= m < r.len() && r[m] == x;
                assert(out[m] == x);
            }
        }
        assert forall|i: int, j: int| 0 <= i <= j < out.len() implies key(out[i]) <= key(out[j]) by {
            if j == out.len() - 1 && i < j {
                assert(r[i] == out[i]);
                assert(r.contains(r[i]));
                if r[i] != x {
                    assert(d.contains(r[i]));
                    let k = choose|k: int| 0 <= k < d.len() && d[k] == r[i];
                    assert(s[k] == d[k]);
                }
            }
        }
    }
}

/// The stable sort produces a sorted sequence of the same length holding
/// exactly the input's elements.
pub proof fn lemma_sort_by_key_sorted<T>(s: Seq<T>, key: spec_fn(T) -> int)
    ensures
        sorted_by_key(sort_by_key(s, key), key),
        sort_by_key(s, key).len() == s.len(),
        forall|y: T| #[trigger] sort_by_key(s, key).contains(y) <==> s.contains(y),
    decreases s.len(),
{
    if s.len() > 0 {
        let d = s.drop_last();
        lemma_sort_by_key_sorted(d, key);
        lemma_insert_by_key_sorted(sort_by_key(d, key), s.last(), key);
        assert forall|y: T| #[trigger] sort_by_key(s, key).contains(y) <==> s.contains(y) by {
            if s.contains(y) && y != s.last() {
                let k = choose|k: int| 0 <= k < s.len() && s[k] == y;
                assert(d[k] == y);
            }
            if d.contains(y) {
                let k = choose|k: int| 0 <= k < d.len() && d[k] == y;
                assert(s[k] == y);
            }
            assert(s[s.len() - 1] == s.last());
        }
    }
}

/// Sum of `f` over the sequence.
pub open spec fn sum_by<T>(s: Seq<T>, f: spec_fn(T) -> int) -> int
    decreases s.len(),
{
    if s.len() == 0 {
        0
    } else {
        sum_by(s.drop_last(), f) + f(s.last())
    }
}

/// Every running total of `f` along the sequence fits in an `i64`, so that
/// adding the values up with `i64` arithmetic does not overflow.
pub open spec fn running_sums_fit_i64<T>(s: Seq<T>, f: spec_fn(T) -> int) -> bool {
    forall|i: int| 0 <= i <= s.len() ==> i64::MIN <= #[trigger] sum_by(s.take(i), f) <= i64::MAX
}

} // verus!
