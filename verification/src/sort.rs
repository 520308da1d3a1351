//! Stable sorting, as `slice::sort_by` does it: the model is insertion
//! sort, whose result (sorted, and equal elements in their first order) is
//! the only one a stable sort can give.
use vstd::prelude::*;

verus! {

broadcast use vstd::seq_lib::group_to_multiset_ensures;

/// `x` put into `s` just before the first element that it must precede.
pub open spec fn insert_sorted<T>(s: Seq<T>, x: T, lt: spec_fn(T, T) -> bool) -> Seq<T>
    decreases s.len(),
{
    if s.len() == 0 {
        seq![x]
    } else if lt(x, s[0]) {
        seq![x] + s
    } else {
        seq![s[0]] + insert_sorted(s.drop_first(), x, lt)
    }
}

/// The stable sort of `s` under the strict order `lt`.
pub open spec fn stable_sort<T>(s: Seq<T>, lt: spec_fn(T, T) -> bool) -> Seq<T>
    decreases s.len(),
{
    if s.len() == 0 {
        s
    } else {
        insert_sorted(stable_sort(s.drop_last(), lt), s.last(), lt)
    }
}

/// No element is strictly before an element that precedes it.
pub open spec fn sorted_by<T>(s: Seq<T>, lt: spec_fn(T, T) -> bool) -> bool {
    forall|i: int, j: int| 0 <= i < j < s.len() ==> !lt(#[trigger] s[j], #[trigger] s[i])
}

pub open spec fn irreflexive<T>(lt: spec_fn(T, T) -> bool) -> bool {
    forall|a: T| !#[trigger] lt(a, a)
}

pub open spec fn transitive<T>(lt: spec_fn(T, T) -> bool) -> bool {
    forall|a: T, b: T, c: T| #[trigger] lt(a, b) && #[trigger] lt(b, c) ==> lt(a, c)
}

/// Where the exec insertion puts `x`: at the first `p` that `x` must precede.
pub proof fn lemma_insert_at<T>(s: Seq<T>, x: T, lt: spec_fn(T, T) -> bool, p: int)
    requires
        0 <= p <= s.len(),
        forall|k: int| 0 <= k < p ==> !lt(x, #[trigger] s[k]),
        p == s.len() || lt(x, s[p]),
    ensures
        insert_sorted(s, x, lt) == s.insert(p, x),
    decreases p,
{
    if s.len() == 0 {
        assert(s.insert(p, x) =~= seq![x]);
    } else if p == 0 {
        assert(s.insert(p, x) =~= seq![x] + s);
    } else {
        assert(!lt(x, s[0]));
        let t = s.drop_first();
        assert forall|k: int| 0 <= k < p - 1 implies !lt(x, #[trigger] t[k]) by {
            assert(t[k] == s[k + 1]);
        }
        lemma_insert_at(t, x, lt, p - 1);
        assert(s.insert(p, x) =~= seq![s[0]] + t.insert(p - 1, x));
    }
}

pub proof fn lemma_insert_sorted_len<T>(s: Seq<T>, x: T, lt: spec_fn(T, T) -> bool)
    ensures
        insert_sorted(s, x, lt).len() == s.len() + 1,
    decreases s.len(),
{
    if s.len() > 0 && !lt(x, s[0]) {
        lemma_insert_sorted_len(s.drop_first(), x, lt);
    }
}

pub proof fn lemma_insert_sorted_multiset<T>(s: Seq<T>, x: T, lt: spec_fn(T, T) -> bool)
    ensures
        insert_sorted(s, x, lt).to_multiset() == s.to_multiset().insert(x),
    decreases s.len(),
{
    if s.len() == 0 {
        assert(seq![x] == Seq::<T>::empty().push(x));
    } else if lt(x, s[0]) {
        vstd::seq_lib::lemma_multiset_commutative(seq![x], s);
        assert(seq![x] == Seq::<T>::empty().push(x));
    } else {
        let t = s.drop_first();
        lemma_insert_sorted_multiset(t, x, lt);
        vstd::seq_lib::lemma_multiset_commutative(seq![s[0]], insert_sorted(t, x, lt));
        vstd::seq_lib::lemma_multiset_commutative(seq![s[0]], t);
        assert(seq![s[0]] + t == s);
        assert(seq![s[0]] == Seq::<T>::empty().push(s[0]));
    }
}

/// Sorting keeps every element, as often as it occurs.
pub proof fn lemma_stable_sort_multiset<T>(s: Seq<T>, lt: spec_fn(T, T) -> bool)
    ensures
        stable_sort(s, lt).to_multiset() == s.to_multiset(),
        stable_sort(s, lt).len() == s.len(),
    decreases s.len(),
{
    if s.len() > 0 {
        lemma_stable_sort_multiset(s.drop_last(), lt);
        lemma_insert_sorted_multiset(stable_sort(s.drop_last(), lt), s.last(), lt);
        lemma_insert_sorted_len(stable_sort(s.drop_last(), lt), s.last(), lt);
        assert(s.drop_last().push(s.last()) == s);
    }
}

proof fn lemma_insert_sorted_sorted<T>(s: Seq<T>, x: T, lt: spec_fn(T, T) -> bool)
    requires
        sorted_by(s, lt),
        irreflexive(lt),
        transitive(lt),
    ensures
        sorted_by(insert_sorted(s, x, lt), lt),
        forall|k: int|
            0 <= k < insert_sorted(s, x, lt).len() ==> (#[trigger] insert_sorted(s, x, lt)[k] == x
                || s.contains(insert_sorted(s, x, lt)[k])),
    decreases s.len(),
{
    lemma_insert_sorted_len(s, x, lt);
    let r = insert_sorted(s, x, lt);
    if s.len() == 0 {
    } else if lt(x, s[0]) {
        assert forall|i: int, j: int| 0 <= i < j < r.len() implies !lt(#[trigger] r[j], #[trigger] r[i]) by {
            if i == 0 {
                assert(r[j] == s[j - 1]);
                if lt(s[j - 1], x) {
                    assert(lt(s[j - 1], s[0]));
                    if j - 1 == 0 {
                        assert(!lt(s[0], s[0]));
                    }
                }
            } else {
                assert(r[i] == s[i - 1] && r[j] == s[j - 1]);
            }
        }
        assert forall|k: int| 0 <= k < r.len() implies (#[trigger] r[k] == x || s.contains(r[k])) by {
            if k > 0 {
                assert(r[k] == s[k - 1]);
            }
        }
    } else {
        let t = s.drop_first();
        assert(sorted_by(t, lt)) by {
            assert forall|i: int, j: int| 0 <= i < j < t.len() implies !lt(#[trigger] t[j], #[trigger] t[i]) by {
                assert(t[i] == s[i + 1] && t[j] == s[j + 1]);
            }
        }
        lemma_insert_sorted_sorted(t, x, lt);
        let u = insert_sorted(t, x, lt);
        assert(r == seq![s[0]] + u);
        assert forall|i: int, j: int| 0 <= i < j < r.len() implies !lt(#[trigger] r[j], #[trigger] r[i]) by {
            if i == 0 {
                assert(r[j] == u[j - 1]);
                if u[j - 1] == x {
                } else {
                    assert(t.contains(u[j - 1]));
                    let k = choose|k: int| 0 <= k < t.len() && t[k] == u[j - 1];
                    assert(s[k + 1] == t[k]);
                    assert(!lt(s[k + 1], s[0]));
                }
            } else {
                assert(r[i] == u[i - 1] && r[j] == u[j - 1]);
            }
        }
        assert forall|k: int| 0 <= k < r.len() implies (#[trigger] r[k] == x || s.contains(r[k])) by {
            if k == 0 {
                assert(s.contains(s[0]));
            } else {
                assert(r[k] == u[k - 1]);
                if u[k - 1] != x {
                    assert(t.contains(u[k - 1]));
                    let m = choose|m: int| 0 <= m < t.len() && t[m] == u[k - 1];
                    assert(s[m + 1] == t[m]);
                }
            }
        }
    }
}

/// A stable sort under a transitive strict order leaves no element after
/// one that it must precede.
pub proof fn lemma_stable_sort_sorted<T>(s: Seq<T>, lt: spec_fn(T, T) -> bool)
    requires
        irreflexive(lt),
        transitive(lt),
    ensures
        sorted_by(stable_sort(s, lt), lt),
    decreases s.len(),
{
    if s.len() > 0 {
        lemma_stable_sort_sorted(s.drop_last(), lt);
        lemma_insert_sorted_sorted(stable_sort(s.drop_last(), lt), s.last(), lt);
    }
}

/// Sorting by an order that only looks at `f` of each element commutes
/// with mapping `f`.
pub proof fn lemma_insert_sorted_map<A, B>(
    s: Seq<A>,
    x: A,
    f: spec_fn(A) -> B,
    lta: spec_fn(A, A) -> bool,
    ltb: spec_fn(B, B) -> bool,
)
    requires
        forall|a: A, b: A| #[trigger] lta(a, b) == ltb(f(a), f(b)),
    ensures
        insert_sorted(s, x, lta).map_values(f) == insert_sorted(s.map_values(f), f(x), ltb),
    decreases s.len(),
{
    let m = s.map_values(f);
    if s.len() == 0 {
        assert(insert_sorted(s, x, lta).map_values(f) =~= seq![f(x)]);
    } else {
        assert(m[0] == f(s[0]));
        if lta(x, s[0]) {
            assert(insert_sorted(s, x, lta).map_values(f) =~= seq![f(x)] + m);
        } else {
            lemma_insert_sorted_map(s.drop_first(), x, f, lta, ltb);
            assert(s.drop_first().map_values(f) =~= m.drop_first());
            assert(insert_sorted(s, x, lta).map_values(f) =~= seq![f(s[0])] + insert_sorted(
                s.drop_first(),
                x,
                lta,
            ).map_values(f));
        }
    }
}

pub proof fn lemma_stable_sort_map<A, B>(
    s: Seq<A>,
    f: spec_fn(A) -> B,
    lta: spec_fn(A, A) -> bool,
    ltb: spec_fn(B, B) -> bool,
)
    requires
        forall|a: A, b: A| #[trigger] lta(a, b) == ltb(f(a), f(b)),
    ensures
        stable_sort(s, lta).map_values(f) == stable_sort(s.map_values(f), ltb),
    decreases s.len(),
{
    if s.len() > 0 {
        lemma_stable_sort_map(s.drop_last(), f, lta, ltb);
        lemma_insert_sorted_map(stable_sort(s.drop_last(), lta), s.last(), f, lta, ltb);
        assert(s.drop_last().map_values(f) =~= s.map_values(f).drop_last());
    }
}

} // verus!
