//! Facts about selecting rows from a table: which rows a selection keeps,
//! and that it keeps them in order.

use vstd::prelude::*;

verus! {

/// The position in `s` of the row that stands at position `a` of
/// `s.filter(p)`.
pub open spec fn origin<A>(s: Seq<A>, p: spec_fn(A) -> bool, a: int) -> int
    decreases s.len(),
{
    if s.len() == 0 {
        0
    } else if a >= s.drop_last().filter(p).len() {
        s.len() - 1
    } else {
        origin(s.drop_last(), p, a)
    }
}

/// A selection keeps rows of the table that satisfy the condition, each at a
/// position of the table, and in the order of the table.
pub proof fn lemma_filter_origin<A>(s: Seq<A>, p: spec_fn(A) -> bool)
    ensures
        forall|a: int|
            0 <= a < s.filter(p).len() ==> {
                &&& 0 <= #[trigger] origin(s, p, a) < s.len()
                &&& s[origin(s, p, a)] == s.filter(p)[a]
                &&& p(s[origin(s, p, a)])
            },
        forall|a: int, b: int|
            0 <= a < b < s.filter(p).len() ==> #[trigger] origin(s, p, a) < #[trigger] origin(
                s,
                p,
                b,
            ),
    decreases s.len(),
{
    reveal(Seq::filter);
    if s.len() > 0 {
        lemma_filter_origin(s.drop_last(), p);
        let rest = s.drop_last().filter(p);
        assert forall|a: int| 0 <= a < s.filter(p).len() implies {
            &&& 0 <= #[trigger] origin(s, p, a) < s.len()
            &&& s[origin(s, p, a)] == s.filter(p)[a]
            &&& p(s[origin(s, p, a)])
        } by {
            if a < rest.len() {
                let k = origin(s.drop_last(), p, a);
                assert(s.drop_last()[k] == s[k]);
            }
        }
        assert forall|a: int, b: int| 0 <= a < b < s.filter(p).len() implies #[trigger] origin(
            s,
            p,
            a,
        ) < #[trigger] origin(s, p, b) by {
            assert(s.filter(p).len() <= rest.len() + 1);
            if b < rest.len() {
                assert(origin(s, p, a) == origin(s.drop_last(), p, a));
                assert(origin(s, p, b) == origin(s.drop_last(), p, b));
            } else {
                assert(a < rest.len());
                assert(origin(s, p, a) == origin(s.drop_last(), p, a));
                assert(origin(s.drop_last(), p, a) < s.drop_last().len());
                assert(origin(s, p, b) == s.len() - 1);
            }
        }
    }
}

/// Every row that satisfies the condition stands in the selection.
pub proof fn lemma_filter_has<A>(s: Seq<A>, p: spec_fn(A) -> bool, i: int)
    requires
        0 <= i < s.len(),
        p(s[i]),
    ensures
        exists|a: int| 0 <= a < s.filter(p).len() && #[trigger] s.filter(p)[a] == s[i],
{
    s.lemma_filter_contains(p, i);
}

/// Selecting from the first `i + 1` rows is selecting from the first `i` and
/// then deciding on row `i`.
pub proof fn lemma_filter_step<A>(s: Seq<A>, p: spec_fn(A) -> bool, i: int)
    requires
        0 <= i < s.len(),
    ensures
        s.take(i + 1).filter(p) == if p(s[i]) {
            s.take(i).filter(p).push(s[i])
        } else {
            s.take(i).filter(p)
        },
{
    reveal(Seq::filter);
    assert(s.take(i + 1).drop_last() =~= s.take(i));
}

/// Where no row satisfies the condition the selection is empty.
pub proof fn lemma_filter_none<A>(s: Seq<A>, p: spec_fn(A) -> bool)
    requires
        forall|i: int| 0 <= i < s.len() ==> !p(#[trigger] s[i]),
    ensures
        s.filter(p) == Seq::<A>::empty(),
    decreases s.len(),
{
    reveal(Seq::filter);
    if s.len() > 0 {
        lemma_filter_none(s.drop_last(), p);
    } else {
        assert(s.filter(p) =~= Seq::<A>::empty());
    }
}

/// Where every row satisfies the condition the selection is the table.
pub proof fn lemma_filter_every<A>(s: Seq<A>, p: spec_fn(A) -> bool)
    requires
        forall|i: int| 0 <= i < s.len() ==> p(#[trigger] s[i]),
    ensures
        s.filter(p) == s,
    decreases s.len(),
{
    reveal(Seq::filter);
    if s.len() > 0 {
        lemma_filter_every(s.drop_last(), p);
        assert(s.drop_last().push(s.last()) =~= s);
    }
}

/// Two conditions that agree on every row of a table select the same rows.
pub proof fn lemma_filter_same<A>(s: Seq<A>, p: spec_fn(A) -> bool, q: spec_fn(A) -> bool)
    requires
        forall|i: int| 0 <= i < s.len() ==> p(#[trigger] s[i]) == q(s[i]),
    ensures
        s.filter(p) == s.filter(q),
    decreases s.len(),
{
    reveal(Seq::filter);
    if s.len() > 0 {
        lemma_filter_same(s.drop_last(), p, q);
    }
}

/// Selecting by one condition and then by another is selecting by both.
pub proof fn lemma_filter_twice<A>(s: Seq<A>, p: spec_fn(A) -> bool, q: spec_fn(A) -> bool)
    ensures
        s.filter(p).filter(q) == s.filter(|x: A| p(x) && q(x)),
    decreases s.len(),
{
    reveal(Seq::filter);
    if s.len() > 0 {
        lemma_filter_twice(s.drop_last(), p, q);
        if p(s.last()) {
            s.drop_last().filter(p).lemma_filter_push(s.last(), q);
        }
    } else {
        assert(s.filter(p).filter(q) =~= s.filter(|x: A| p(x) && q(x)));
    }
}

/// The order in which two conditions are applied does not matter.
pub proof fn lemma_filter_commutes<A>(s: Seq<A>, p: spec_fn(A) -> bool, q: spec_fn(A) -> bool)
    ensures
        s.filter(p).filter(q) == s.filter(q).filter(p),
{
    lemma_filter_twice(s, p, q);
    lemma_filter_twice(s, q, p);
    lemma_filter_same(s, |x: A| p(x) && q(x), |x: A| q(x) && p(x));
}

/// Selecting from changed rows is changing the rows selected by the
/// condition on what they change into.
pub proof fn lemma_filter_mapped<A, B>(s: Seq<A>, f: spec_fn(A) -> B, q: spec_fn(B) -> bool)
    ensures
        s.map_values(f).filter(q) == s.filter(|x: A| q(f(x))).map_values(f),
    decreases s.len(),
{
    reveal(Seq::filter);
    let p = |x: A| q(f(x));
    if s.len() > 0 {
        lemma_filter_mapped(s.drop_last(), f, q);
        assert(s.map_values(f).drop_last() =~= s.drop_last().map_values(f));
        assert(s.map_values(f).last() == f(s.last()));
        if q(f(s.last())) {
            assert(s.filter(p).map_values(f) =~= s.drop_last().filter(p).map_values(f).push(
                f(s.last()),
            ));
        }
    } else {
        assert(s.map_values(f).filter(q) =~= s.filter(p).map_values(f));
    }
}

/// Two tables of one length, selected by conditions that agree row for row,
/// give selections of one length, made of the rows at the same positions.
pub proof fn lemma_filter_aligned<A, B>(
    s: Seq<A>,
    p: spec_fn(A) -> bool,
    t: Seq<B>,
    q: spec_fn(B) -> bool,
)
    requires
        s.len() == t.len(),
        forall|i: int| 0 <= i < s.len() ==> p(#[trigger] s[i]) == q(t[i]),
    ensures
        s.filter(p).len() == t.filter(q).len(),
        forall|a: int|
            0 <= a < s.filter(p).len() ==> #[trigger] origin(s, p, a) == origin(t, q, a),
    decreases s.len(),
{
    reveal(Seq::filter);
    if s.len() > 0 {
        lemma_filter_aligned(s.drop_last(), p, t.drop_last(), q);
        assert(p(s[s.len() - 1]) == q(t[s.len() - 1]));
        let rs = s.drop_last().filter(p);
        let rt = t.drop_last().filter(q);
        assert forall|a: int| 0 <= a < s.filter(p).len() implies #[trigger] origin(s, p, a)
            == origin(t, q, a) by {
            if a < rs.len() {
                assert(origin(s, p, a) == origin(s.drop_last(), p, a));
                assert(origin(t, q, a) == origin(t.drop_last(), q, a));
            } else {
                assert(origin(s, p, a) == s.len() - 1);
                assert(origin(t, q, a) == t.len() - 1);
            }
        }
    }
}

/// A condition and its opposite part a table: every row is selected by one
/// of them.
pub proof fn lemma_filter_split<A>(s: Seq<A>, p: spec_fn(A) -> bool, q: spec_fn(A) -> bool)
    requires
        forall|i: int| 0 <= i < s.len() ==> p(#[trigger] s[i]) != q(s[i]),
    ensures
        s.filter(p).len() + s.filter(q).len() == s.len(),
    decreases s.len(),
{
    reveal(Seq::filter);
    if s.len() > 0 {
        lemma_filter_split(s.drop_last(), p, q);
        assert(p(s[s.len() - 1]) != q(s[s.len() - 1]));
    }
}

/// One step of removing rows in place: `cur` holds the rows kept of the first
/// `k` rows of `orig`, then the rows of `orig` from `k` on.
pub proof fn lemma_retain_step<A>(cur: Seq<A>, orig: Seq<A>, p: spec_fn(A) -> bool, k: int)
    requires
        0 <= k < orig.len(),
        cur =~= orig.take(k).filter(p) + orig.skip(k),
    ensures
        cur[orig.take(k).filter(p).len() as int] == orig[k],
        p(orig[k]) ==> cur =~= orig.take(k + 1).filter(p) + orig.skip(k + 1) && orig.take(
            k + 1,
        ).filter(p).len() == orig.take(k).filter(p).len() + 1,
        !p(orig[k]) ==> cur.remove(orig.take(k).filter(p).len() as int) =~= orig.take(
            k + 1,
        ).filter(p) + orig.skip(k + 1) && orig.take(k + 1).filter(p).len() == orig.take(
            k,
        ).filter(p).len(),
{
    lemma_filter_step(orig, p, k);
    let i = orig.take(k).filter(p).len() as int;
    assert(cur[i] == orig.skip(k)[0]);
}

/// The view of a table after a row was removed.
pub proof fn lemma_deep_view_remove<T: DeepView>(before: Seq<T>, after: Seq<T>, i: int)
    requires
        0 <= i < before.len(),
        after == before.remove(i),
    ensures
        Seq::new(after.len(), |j: int| after[j].deep_view()) =~= Seq::new(
            before.len(),
            |j: int| before[j].deep_view(),
        ).remove(i),
{
}

} // verus!
