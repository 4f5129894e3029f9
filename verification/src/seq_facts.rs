//! Facts about filtered sequences shared by the connection registry and
//! the presence store, which both model "remove every record matching a
//! key" as `Seq::filter`.

use vstd::prelude::*;

verus! {

/// The values of `key` are pairwise different over `s`.
pub open spec fn distinct_by<T, K>(s: Seq<T>, key: spec_fn(T) -> K) -> bool {
    forall|i: int, j: int| 0 <= i < j < s.len() ==> key(#[trigger] s[i]) != key(#[trigger] s[j])
}

/// Every element of a filtered sequence occurs in the sequence it was
/// filtered from.
pub proof fn lemma_filter_elems_contained<T>(s: Seq<T>, pred: spec_fn(T) -> bool)
    ensures
        forall|i: int|
            0 <= i < s.filter(pred).len() ==> s.contains(#[trigger] s.filter(pred)[i]),
    decreases s.len(),
{
    reveal(Seq::filter);
    if s.len() > 0 {
        lemma_filter_elems_contained(s.drop_last(), pred);
        assert forall|i: int|
            0 <= i < s.filter(pred).len() implies s.contains(s.filter(pred)[i]) by {
            if pred(s.last()) && i == s.filter(pred).len() - 1 {
                assert(s[s.len() - 1] == s.filter(pred)[i]);
            } else {
                let e = s.drop_last().filter(pred)[i];
                assert(s.drop_last().contains(e));
                let k = choose|k: int| 0 <= k < s.drop_last().len() && s.drop_last()[k] == e;
                assert(s[k] == e);
            }
        }
    }
}

/// Filtering keeps the values of `key` pairwise different.
pub proof fn lemma_filter_distinct_by<T, K>(
    s: Seq<T>,
    key: spec_fn(T) -> K,
    pred: spec_fn(T) -> bool,
)
    requires
        distinct_by(s, key),
    ensures
        distinct_by(s.filter(pred), key),
    decreases s.len(),
{
    reveal(Seq::filter);
    if s.len() > 0 {
        assert(distinct_by(s.drop_last(), key)) by {
            assert forall|i: int, j: int|
                0 <= i < j < s.drop_last().len() implies key(s.drop_last()[i]) != key(
                s.drop_last()[j],
            ) by {
                assert(s.drop_last()[i] == s[i] && s.drop_last()[j] == s[j]);
            }
        }
        lemma_filter_distinct_by(s.drop_last(), key, pred);
        let f = s.drop_last().filter(pred);
        if pred(s.last()) {
            lemma_filter_elems_contained(s.drop_last(), pred);
            assert forall|i: int| 0 <= i < f.len() implies key(f[i]) != key(s.last()) by {
                assert(s.drop_last().contains(f[i]));
                let k = choose|k: int| 0 <= k < s.drop_last().len() && s.drop_last()[k] == f[i];
                assert(s[k] == f[i]);
            }
            assert forall|i: int, j: int|
                0 <= i < j < f.push(s.last()).len() implies key(f.push(s.last())[i]) != key(
                f.push(s.last())[j],
            ) by {
                if j < f.len() {
                    assert(f.push(s.last())[i] == f[i] && f.push(s.last())[j] == f[j]);
                } else {
                    assert(f.push(s.last())[i] == f[i] && f.push(s.last())[j] == s.last());
                }
            }
        }
    }
}

/// A sequence each of whose elements satisfies `pred` is unchanged by
/// filtering with `pred`.
pub proof fn lemma_filter_all_true<T>(s: Seq<T>, pred: spec_fn(T) -> bool)
    requires
        forall|i: int| 0 <= i < s.len() ==> pred(#[trigger] s[i]),
    ensures
        s.filter(pred) == s,
    decreases s.len(),
{
    reveal(Seq::filter);
    if s.len() > 0 {
        assert forall|i: int| 0 <= i < s.drop_last().len() implies pred(s.drop_last()[i]) by {
            assert(s.drop_last()[i] == s[i]);
        }
        lemma_filter_all_true(s.drop_last(), pred);
        assert(s.drop_last().push(s.last()) =~= s);
    } else {
        assert(s.filter(pred) =~= s);
    }
}

/// Removing the one element that fails `pred`, when every other element
/// satisfies it, is the same as filtering with `pred`.
pub proof fn lemma_remove_one_is_filter<T>(s: Seq<T>, pred: spec_fn(T) -> bool, idx: int)
    requires
        0 <= idx < s.len(),
        !pred(s[idx]),
        forall|k: int| 0 <= k < s.len() && k != idx ==> pred(#[trigger] s[k]),
    ensures
        s.remove(idx) == s.filter(pred),
{
    let a = s.subrange(0, idx);
    let mid = s.subrange(idx, idx + 1);
    let b = s.subrange(idx + 1, s.len() as int);
    assert(s =~= (a + mid) + b);
    Seq::filter_distributes_over_add(a + mid, b, pred);
    Seq::filter_distributes_over_add(a, mid, pred);
    assert forall|k: int| 0 <= k < a.len() implies pred(a[k]) by {
        assert(a[k] == s[k]);
    }
    lemma_filter_all_true(a, pred);
    assert forall|k: int| 0 <= k < b.len() implies pred(b[k]) by {
        assert(b[k] == s[idx + 1 + k]);
    }
    lemma_filter_all_true(b, pred);
    assert(mid.filter(pred) =~= Seq::<T>::empty()) by {
        reveal_with_fuel(Seq::filter, 2);
        assert(mid.drop_last() =~= Seq::<T>::empty());
        assert(mid.last() == s[idx]);
    }
    assert(s.filter(pred) == ((a + mid) + b).filter(pred));
    assert(((a + mid) + b).filter(pred) == (a.filter(pred) + mid.filter(pred)) + b.filter(pred));
    assert((a.filter(pred) + mid.filter(pred)) + b.filter(pred) =~= a + b);
    assert(s.remove(idx) =~= a + b);
}

} // verus!
