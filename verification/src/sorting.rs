//! Stable sorting by a strict order, specified as insertion into an already
//! ordered sequence.

use vstd::prelude::*;

verus! {

broadcast use vstd::seq_lib::group_to_multiset_ensures;

/// `lt` is a strict order: irreflexive and transitive.
pub open spec fn is_strict_order<T>(lt: spec_fn(T, T) -> bool) -> bool {
    &&& forall|a: T| !#[trigger] lt(a, a)
    &&& forall|a: T, b: T, c: T| #[trigger] lt(a, b) && #[trigger] lt(b, c) ==> lt(a, c)
}

/// No element is strictly below an element placed before it.
pub open spec fn is_ordered_by<T>(s: Seq<T>, lt: spec_fn(T, T) -> bool) -> bool {
    forall|i: int, j: int| 0 <= i < j < s.len() ==> !lt(#[trigger] s[j], #[trigger] s[i])
}

/// Index at which `x` is inserted into `r`: in front of the first element that
/// `x` is strictly below, after all elements it is not below.
pub open spec fn insert_pos<T>(r: Seq<T>, x: T, lt: spec_fn(T, T) -> bool) -> int
    decreases r.len(),
{
    if r.len() == 0 {
        0
    } else if lt(x, r[0]) {
        0
    } else {
        1 + insert_pos(r.drop_first(), x, lt)
    }
}

/// `x` inserted into `r` in front of the first element that `x` is below.
pub open spec fn insert_ordered<T>(r: Seq<T>, x: T, lt: spec_fn(T, T) -> bool) -> Seq<T> {
    r.insert(insert_pos(r, x, lt), x)
}

/// The stable sort of `s` by `lt`: each element, in the order of `s`, is
/// inserted after every element it is not strictly below.
pub open spec fn stable_sorted<T>(s: Seq<T>, lt: spec_fn(T, T) -> bool) -> Seq<T>
    decreases s.len(),
{
    if s.len() == 0 {
        s
    } else {
        insert_ordered(stable_sorted(s.drop_last(), lt), s.last(), lt)
    }
}

pub proof fn lemma_insert_pos_bounds<T>(r: Seq<T>, x: T, lt: spec_fn(T, T) -> bool)
    ensures
        0 <= insert_pos(r, x, lt) <= r.len(),
        forall|i: int| 0 <= i < insert_pos(r, x, lt) ==> !lt(x, #[trigger] r[i]),
        insert_pos(r, x, lt) < r.len() ==> lt(x, r[insert_pos(r, x, lt)]),
    decreases r.len(),
{
    if r.len() > 0 && !lt(x, r[0]) {
        lemma_insert_pos_bounds(r.drop_first(), x, lt);
        assert forall|i: int| 0 <= i < insert_pos(r, x, lt) implies !lt(x, #[trigger] r[i]) by {
            if i > 0 {
                assert(r[i] == r.drop_first()[i - 1]);
            }
        }
    }
}

/// The insertion point is the first index whose element `x` is strictly below.
pub proof fn lemma_insert_pos_unique<T>(r: Seq<T>, x: T, lt: spec_fn(T, T) -> bool, p: int)
    requires
        0 <= p <= r.len(),
        forall|i: int| 0 <= i < p ==> !lt(x, #[trigger] r[i]),
        p < r.len() ==> lt(x, r[p]),
    ensures
        insert_pos(r, x, lt) == p,
    decreases r.len(),
{
    if r.len() > 0 && p > 0 {
        assert(!lt(x, r[0]));
        assert forall|i: int| 0 <= i < p - 1 implies !lt(x, #[trigger] r.drop_first()[i]) by {
            assert(r.drop_first()[i] == r[i + 1]);
        }
        lemma_insert_pos_unique(r.drop_first(), x, lt, p - 1);
    }
}

pub proof fn lemma_insert_ordered_keeps_order<T>(r: Seq<T>, x: T, lt: spec_fn(T, T) -> bool)
    requires
        is_strict_order(lt),
        is_ordered_by(r, lt),
    ensures
        is_ordered_by(insert_ordered(r, x, lt), lt),
{
    lemma_insert_pos_bounds(r, x, lt);
    let p = insert_pos(r, x, lt);
    let t = insert_ordered(r, x, lt);
    assert forall|i: int, j: int| 0 <= i < j < t.len() implies !lt(#[trigger] t[j], #[trigger] t[i]) by {
        if j < p {
            assert(t[i] == r[i] && t[j] == r[j]);
        } else if j == p {
            assert(t[j] == x && t[i] == r[i]);
        } else if i < p {
            assert(t[j] == r[j - 1] && t[i] == r[i]);
        } else if i == p {
            assert(t[i] == x && t[j] == r[j - 1]);
            if lt(r[j - 1], x) {
                assert(lt(x, r[p]));
                assert(lt(r[j - 1], r[p]));
                if j - 1 > p {
                    assert(!lt(r[j - 1], r[p]));
                }
            }
        } else {
            assert(t[i] == r[i - 1] && t[j] == r[j - 1]);
        }
    }
}

/// The stable sort is ordered by `lt`.
pub proof fn lemma_stable_sorted_is_ordered<T>(s: Seq<T>, lt: spec_fn(T, T) -> bool)
    requires
        is_strict_order(lt),
    ensures
        is_ordered_by(stable_sorted(s, lt), lt),
    decreases s.len(),
{
    if s.len() > 0 {
        lemma_stable_sorted_is_ordered(s.drop_last(), lt);
        lemma_insert_ordered_keeps_order(stable_sorted(s.drop_last(), lt), s.last(), lt);
    }
}

/// The stable sort holds the same elements, each as often.
pub proof fn lemma_stable_sorted_is_permutation<T>(s: Seq<T>, lt: spec_fn(T, T) -> bool)
    ensures
        stable_sorted(s, lt).to_multiset() == s.to_multiset(),
        stable_sorted(s, lt).len() == s.len(),
    decreases s.len(),
{
    if s.len() > 0 {
        let r = stable_sorted(s.drop_last(), lt);
        lemma_stable_sorted_is_permutation(s.drop_last(), lt);
        lemma_insert_pos_bounds(r, s.last(), lt);
        assert(s.drop_last().push(s.last()) =~= s);
    }
}

/// Sorting an ordered sequence leaves it as it is.
pub proof fn lemma_stable_sorted_of_ordered<T>(s: Seq<T>, lt: spec_fn(T, T) -> bool)
    requires
        is_ordered_by(s, lt),
    ensures
        stable_sorted(s, lt) == s,
    decreases s.len(),
{
    if s.len() > 0 {
        let init = s.drop_last();
        assert(is_ordered_by(init, lt)) by {
            assert forall|i: int, j: int| 0 <= i < j < init.len() implies !lt(
                #[trigger] init[j],
                #[trigger] init[i],
            ) by {
                assert(init[i] == s[i] && init[j] == s[j]);
            }
        }
        lemma_stable_sorted_of_ordered(init, lt);
        let x = s.last();
        assert forall|i: int| 0 <= i < init.len() implies !lt(x, #[trigger] init[i]) by {
            assert(init[i] == s[i]);
        }
        lemma_insert_pos_unique(init, x, lt, init.len() as int);
        assert(init.insert(init.len() as int, x) =~= s);
    }
}

pub proof fn lemma_insert_pos_map<A, B>(
    r: Seq<A>,
    x: A,
    f: spec_fn(A) -> B,
    lta: spec_fn(A, A) -> bool,
    ltb: spec_fn(B, B) -> bool,
)
    requires
        forall|a: A, b: A| #[trigger] lta(a, b) == ltb(f(a), f(b)),
    ensures
        insert_pos(r, x, lta) == insert_pos(r.map_values(f), f(x), ltb),
    decreases r.len(),
{
    if r.len() > 0 {
        assert(r.map_values(f).drop_first() =~= r.drop_first().map_values(f));
        assert(lta(x, r[0]) == ltb(f(x), f(r[0])));
        lemma_insert_pos_map(r.drop_first(), x, f, lta, ltb);
    }
}

/// Sorting commutes with a map that carries one order onto the other.
pub proof fn lemma_stable_sorted_map<A, B>(
    s: Seq<A>,
    f: spec_fn(A) -> B,
    lta: spec_fn(A, A) -> bool,
    ltb: spec_fn(B, B) -> bool,
)
    requires
        forall|a: A, b: A| #[trigger] lta(a, b) == ltb(f(a), f(b)),
    ensures
        stable_sorted(s, lta).map_values(f) == stable_sorted(s.map_values(f), ltb),
    decreases s.len(),
{
    if s.len() > 0 {
        let r = stable_sorted(s.drop_last(), lta);
        lemma_stable_sorted_map(s.drop_last(), f, lta, ltb);
        assert(s.map_values(f).drop_last() =~= s.drop_last().map_values(f));
        lemma_insert_pos_map(r, s.last(), f, lta, ltb);
        lemma_stable_sorted_is_permutation(s.drop_last(), lta);
        lemma_insert_pos_bounds(r, s.last(), lta);
        let p = insert_pos(r, s.last(), lta);
        assert(r.insert(p, s.last()).map_values(f) =~= r.map_values(f).insert(p, f(s.last())));
    }
}

/// Sorts `v` stably by the strict order `lt`, which `less` computes.
pub fn sort_stable<T, F: Fn(&T, &T) -> bool>(v: Vec<T>, less: F, Ghost(lt): Ghost<spec_fn(T, T) -> bool>) -> (r: Vec<T>)
    requires
        forall|a: &T, b: &T| #[trigger] less.requires((a, b)),
        forall|a: &T, b: &T, res: bool| #[trigger] less.ensures((a, b), res) ==> res == lt(*a, *b),
    ensures
        r@ == stable_sorted(v@, lt),
{
    let ghost s = v@;
    let mut rest = v;
    let mut out: Vec<T> = Vec::new();
    let n = rest.len();
    let mut i: usize = 0;
    assert(s.take(0) =~= Seq::<T>::empty());
    assert(s.skip(0) =~= s);
    while i < n
        invariant
            n == s.len(),
            i <= n,
            rest@ == s.skip(i as int),
            out@ == stable_sorted(s.take(i as int), lt),
            forall|a: &T, b: &T| #[trigger] less.requires((a, b)),
            forall|a: &T, b: &T, res: bool| #[trigger] less.ensures((a, b), res) ==> res == lt(*a, *b),
        decreases n - i,
    {
        let x = rest.remove(0);
        assert(x == s[i as int]);
        assert(rest@ =~= s.skip(i + 1));
        let m = out.len();
        let mut p: usize = 0;
        while p < m
            invariant
                m == out@.len(),
                p <= m,
                forall|k: int| 0 <= k < p ==> !lt(x, #[trigger] out@[k]),
                forall|a: &T, b: &T| #[trigger] less.requires((a, b)),
                forall|a: &T, b: &T, res: bool| #[trigger] less.ensures((a, b), res) ==> res == lt(*a, *b),
            ensures
                p <= m,
                forall|k: int| 0 <= k < p ==> !lt(x, #[trigger] out@[k]),
                p < m ==> lt(x, out@[p as int]),
            decreases m - p,
        {
            if less(&x, &out[p]) {
                break;
            }
            p = p + 1;
        }
        proof {
            lemma_insert_pos_unique(out@, x, lt, p as int);
            assert(s.take(i + 1).drop_last() =~= s.take(i as int));
            assert(s.take(i + 1).last() == x);
        }
        out.insert(p, x);
        i = i + 1;
    }
    assert(s.take(n as int) =~= s);
    out
}

} // verus!
