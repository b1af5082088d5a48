//! Stable ordering of a list by a ranking.
//!
//! A list is brought into rank order by placing its items one by one, each
//! behind every item already placed that it does not precede. Items of which
//! neither precedes the other therefore keep the order in which they came.

use vstd::prelude::*;

verus! {

/// A strict order on the values of `T`, which may leave two different values
/// unordered: the order that comparing by a key gives.
pub trait Ranking<T>: Sized {
    /// Whether `a` must stand before `b`.
    spec fn precedes(&self, a: &T, b: &T) -> bool;

    /// Nothing precedes itself.
    proof fn lemma_irreflexive(&self, a: &T)
        ensures
            !self.precedes(a, a),
    ;

    /// What precedes a value precedes all that the value precedes.
    proof fn lemma_transitive(&self, a: &T, b: &T, c: &T)
        requires
            self.precedes(a, b),
            self.precedes(b, c),
        ensures
            self.precedes(a, c),
    ;

    /// Where one value precedes another, any third is preceded by the first
    /// or precedes the second.
    proof fn lemma_between(&self, a: &T, b: &T, c: &T)
        requires
            self.precedes(a, c),
        ensures
            self.precedes(a, b) || self.precedes(b, c),
    ;
}

/// A ranking that running code can decide.
pub trait Ranker<T>: Ranking<T> {
    /// Decides `precedes`.
    fn ranks_before(&self, a: &T, b: &T) -> (before: bool)
        ensures
            before == self.precedes(a, b),
    ;
}

/// No item of `s` precedes one that stands before it.
pub open spec fn in_rank_order<T, R: Ranking<T>>(by: R, s: Seq<T>) -> bool {
    forall|i: int, j: int|
        #![trigger s[i], s[j]]
        0 <= i < j < s.len() ==> !by.precedes(&s[j], &s[i])
}

/// The index of the first item of `s` that `x` precedes, or the length of
/// `s` where there is none.
pub open spec fn slot<T, R: Ranking<T>>(by: R, s: Seq<T>, x: T) -> int
    decreases s.len(),
{
    if s.len() == 0 || by.precedes(&x, &s[0]) {
        0
    } else {
        1 + slot(by, s.drop_first(), x)
    }
}

/// `s` with `x` placed at its slot.
pub open spec fn placed<T, R: Ranking<T>>(by: R, s: Seq<T>, x: T) -> Seq<T> {
    s.insert(slot(by, s, x), x)
}

/// `s` in rank order, items that are not ordered among themselves in the
/// order they have in `s`.
pub open spec fn ranked<T, R: Ranking<T>>(by: R, s: Seq<T>) -> Seq<T>
    decreases s.len(),
{
    if s.len() == 0 {
        Seq::empty()
    } else {
        placed(by, ranked(by, s.drop_last()), s.last())
    }
}

/// The first `n` items of `s`, or all of `s` where it has fewer.
pub open spec fn top<T>(s: Seq<T>, n: int) -> Seq<T> {
    if n <= 0 {
        Seq::empty()
    } else if n < s.len() {
        s.take(n)
    } else {
        s
    }
}

/// The slot lies within the list, `x` precedes nothing before it, and `x`
/// precedes the item that stands at it.
pub proof fn lemma_slot_bounds<T, R: Ranking<T>>(by: R, s: Seq<T>, x: T)
    ensures
        0 <= slot(by, s, x) <= s.len(),
        forall|i: int| 0 <= i < slot(by, s, x) ==> !by.precedes(&x, &#[trigger] s[i]),
        slot(by, s, x) < s.len() ==> by.precedes(&x, &s[slot(by, s, x)]),
    decreases s.len(),
{
    if s.len() == 0 || by.precedes(&x, &s[0]) {
    } else {
        let rest = s.drop_first();
        lemma_slot_bounds(by, rest, x);
        assert forall|i: int| 0 <= i < slot(by, s, x) implies !by.precedes(
            &x,
            &#[trigger] s[i],
        ) by {
            if i > 0 {
                assert(s[i] == rest[i - 1]);
            }
        }
        if slot(by, s, x) < s.len() {
            assert(s[slot(by, s, x)] == rest[slot(by, rest, x)]);
        }
    }
}

/// An index with the two properties of the slot is the slot.
pub proof fn lemma_slot_unique<T, R: Ranking<T>>(by: R, s: Seq<T>, x: T, k: int)
    requires
        0 <= k <= s.len(),
        forall|i: int| 0 <= i < k ==> !by.precedes(&x, &#[trigger] s[i]),
        k < s.len() ==> by.precedes(&x, &s[k]),
    ensures
        slot(by, s, x) == k,
{
    lemma_slot_bounds(by, s, x);
    let m = slot(by, s, x);
    if m < k {
        assert(!by.precedes(&x, &s[m]));
    } else if k < m {
        assert(!by.precedes(&x, &s[k]));
    }
}

/// Placing an item into a list in rank order leaves it in rank order.
pub proof fn lemma_placed_in_rank_order<T, R: Ranking<T>>(by: R, s: Seq<T>, x: T)
    requires
        in_rank_order(by, s),
    ensures
        in_rank_order(by, placed(by, s, x)),
        placed(by, s, x).len() == s.len() + 1,
{
    lemma_slot_bounds(by, s, x);
    let k = slot(by, s, x);
    let p = placed(by, s, x);
    assert forall|i: int, j: int| #![trigger p[i], p[j]] 0 <= i < j < p.len() implies !by.precedes(
        &p[j],
        &p[i],
    ) by {
        if j == k {
            assert(p[i] == s[i]);
        } else if i == k {
            assert(p[j] == s[j - 1]);
            if by.precedes(&s[j - 1], &x) {
                by.lemma_transitive(&s[j - 1], &x, &s[k]);
                if j - 1 == k {
                    by.lemma_irreflexive(&s[k]);
                }
            }
        } else {
            let si = if i < k {
                i
            } else {
                i - 1
            };
            let sj = if j < k {
                j
            } else {
                j - 1
            };
            assert(p[i] == s[si]);
            assert(p[j] == s[sj]);
        }
    }
}

/// `ranked` gives a list in rank order.
pub proof fn lemma_ranked_in_rank_order<T, R: Ranking<T>>(by: R, s: Seq<T>)
    ensures
        in_rank_order(by, ranked(by, s)),
    decreases s.len(),
{
    if s.len() > 0 {
        lemma_ranked_in_rank_order(by, s.drop_last());
        lemma_placed_in_rank_order(by, ranked(by, s.drop_last()), s.last());
    }
}

/// `ranked` keeps every item, as often as it occurs.
pub proof fn lemma_ranked_permutes<T, R: Ranking<T>>(by: R, s: Seq<T>)
    ensures
        ranked(by, s).to_multiset() == s.to_multiset(),
        ranked(by, s).len() == s.len(),
    decreases s.len(),
{
    broadcast use vstd::seq_lib::group_to_multiset_ensures;

    if s.len() == 0 {
        assert(ranked(by, s) =~= s);
    } else {
        let front = s.drop_last();
        let r = ranked(by, front);
        lemma_ranked_permutes(by, front);
        lemma_slot_bounds(by, r, s.last());
        let k = slot(by, r, s.last());
        let p = r.insert(k, s.last());
        assert(p.remove(k) =~= r);
        assert(p[k] == s.last());
        assert(p.to_multiset().remove(s.last()) == r.to_multiset());
        assert(p.contains(s.last()));
        assert(p.to_multiset() =~= r.to_multiset().insert(s.last()));
        assert(s =~= front.push(s.last()));
        assert(front.push(s.last()).to_multiset() == front.to_multiset().insert(s.last()));
    }
}

/// A list in rank order is its own ranking.
pub proof fn lemma_ranked_of_rank_order<T, R: Ranking<T>>(by: R, s: Seq<T>)
    requires
        in_rank_order(by, s),
    ensures
        ranked(by, s) == s,
    decreases s.len(),
{
    if s.len() == 0 {
        assert(ranked(by, s) =~= s);
    } else {
        let front = s.drop_last();
        assert(in_rank_order(by, front)) by {
            assert forall|i: int, j: int|
                #![trigger front[i], front[j]]
                0 <= i < j < front.len() implies !by.precedes(&front[j], &front[i]) by {
                assert(front[i] == s[i] && front[j] == s[j]);
            }
        }
        lemma_ranked_of_rank_order(by, front);
        assert forall|i: int| 0 <= i < front.len() implies !by.precedes(
            &s.last(),
            &#[trigger] front[i],
        ) by {
            assert(front[i] == s[i]);
            assert(s.last() == s[s.len() - 1]);
        }
        lemma_slot_unique(by, front, s.last(), front.len() as int);
        assert(placed(by, front, s.last()) =~= s);
    }
}

/// Ranking a list in rank order with one more item behind it places that
/// item: to add an item and rank again is to place it.
pub proof fn lemma_ranked_push<T, R: Ranking<T>>(by: R, s: Seq<T>, x: T)
    requires
        in_rank_order(by, s),
    ensures
        ranked(by, s.push(x)) == placed(by, s, x),
{
    lemma_ranked_of_rank_order(by, s);
    assert(s.push(x).drop_last() =~= s);
    assert(s.push(x).last() == x);
}

/// The first items of a list in rank order are in rank order.
pub proof fn lemma_top_in_rank_order<T, R: Ranking<T>>(by: R, s: Seq<T>, n: int)
    requires
        in_rank_order(by, s),
    ensures
        in_rank_order(by, top(s, n)),
        top(s, n).len() <= s.len(),
        n >= 0 ==> top(s, n).len() <= n,
{
    let t = top(s, n);
    assert forall|i: int, j: int| #![trigger t[i], t[j]] 0 <= i < j < t.len() implies !by.precedes(
        &t[j],
        &t[i],
    ) by {
        assert(t[i] == s[i] && t[j] == s[j]);
    }
}

/// To place an item among the first `n` of a list in rank order and keep
/// the first `n` is to place it in the whole list and keep the first `n`:
/// what was cut off before would be cut off now.
pub proof fn lemma_top_placed_top<T, R: Ranking<T>>(by: R, s: Seq<T>, x: T, n: int)
    requires
        in_rank_order(by, s),
        n >= 0,
    ensures
        top(placed(by, top(s, n), x), n) == top(placed(by, s, x), n),
{
    let t = top(s, n);
    if n > 0 && n < s.len() {
        lemma_slot_bounds(by, s, x);
        let k = slot(by, s, x);
        assert forall|i: int| 0 <= i < t.len() implies t[i] == s[i] by {}
        if k < n {
            assert forall|i: int| 0 <= i < k implies !by.precedes(&x, &#[trigger] t[i]) by {
                assert(t[i] == s[i]);
            }
            assert(t[k] == s[k]);
            lemma_slot_unique(by, t, x, k);
        } else {
            assert forall|i: int| 0 <= i < n implies !by.precedes(&x, &#[trigger] t[i]) by {
                assert(t[i] == s[i]);
            }
            lemma_slot_unique(by, t, x, n);
        }
        assert(top(placed(by, t, x), n) =~= top(placed(by, s, x), n));
    } else if n == 0 {
        assert(top(placed(by, t, x), n) =~= top(placed(by, s, x), n));
    }
}

/// The first `n` of a ranking can be kept up item by item: the first `n`
/// of the ranking of a list with one more item are had by placing the item
/// among the first `n` of the ranking of the list, and keeping the first
/// `n`.
pub proof fn lemma_top_ranked_push<T, R: Ranking<T>>(by: R, s: Seq<T>, x: T, n: int)
    requires
        n >= 0,
    ensures
        top(ranked(by, s.push(x)), n) == top(placed(by, top(ranked(by, s), n), x), n),
{
    assert(s.push(x).drop_last() =~= s);
    assert(s.push(x).last() == x);
    lemma_ranked_in_rank_order(by, s);
    lemma_top_placed_top(by, ranked(by, s), x, n);
}

/// Every item of a list in rank order that neither precedes `x` nor is
/// preceded by it stands before the slot of `x`.
pub proof fn lemma_ties_stand_before_slot<T, R: Ranking<T>>(by: R, s: Seq<T>, x: T, i: int)
    requires
        in_rank_order(by, s),
        0 <= i < s.len(),
        !by.precedes(&x, &s[i]),
        !by.precedes(&s[i], &x),
    ensures
        i < slot(by, s, x),
{
    lemma_slot_bounds(by, s, x);
    let k = slot(by, s, x);
    if k <= i {
        by.lemma_between(&x, &s[i], &s[k]);
        assert(by.precedes(&s[i], &s[k]));
        if i == k {
            by.lemma_irreflexive(&s[k]);
        }
    }
}

/// A list of which no item passes the test has nothing left after the
/// test.
proof fn lemma_filter_none<T>(s: Seq<T>, test: spec_fn(T) -> bool)
    requires
        forall|i: int| 0 <= i < s.len() ==> !test(#[trigger] s[i]),
    ensures
        s.filter(test) == Seq::<T>::empty(),
    decreases s.len(),
{
    reveal(Seq::filter);
    if s.len() > 0 {
        let front = s.drop_last();
        assert forall|i: int| 0 <= i < front.len() implies !test(#[trigger] front[i]) by {
            assert(front[i] == s[i]);
        }
        lemma_filter_none(front, test);
        assert(!test(s[s.len() - 1]));
    }
}

/// What is left of a list of one item after a test.
proof fn lemma_filter_one<T>(x: T, test: spec_fn(T) -> bool)
    ensures
        test(x) ==> seq![x].filter(test) == seq![x],
        !test(x) ==> seq![x].filter(test) == Seq::<T>::empty(),
{
    reveal_with_fuel(Seq::filter, 2);
    let one = seq![x];
    assert(one.len() == 1);
    assert(one.drop_last() =~= Seq::<T>::empty());
    assert(one.last() == x);
    if test(x) {
        assert(one.filter(test) =~= seq![x]);
    }
}

/// Ranking is stable: items of which none precedes another stand in the
/// ranked list in the order in which they stood before.
///
/// `class` picks such items; what it picks from the ranked list is what it
/// picks from the list itself.
pub proof fn lemma_ranked_is_stable<T, R: Ranking<T>>(by: R, s: Seq<T>, class: spec_fn(T) -> bool)
    requires
        forall|a: T, b: T| #[trigger] class(a) && #[trigger] class(b) ==> !by.precedes(&a, &b),
    ensures
        ranked(by, s).filter(class) == s.filter(class),
    decreases s.len(),
{
    reveal(Seq::filter);
    if s.len() == 0 {
        assert(ranked(by, s) =~= s);
    } else {
        let front = s.drop_last();
        let x = s.last();
        let r = ranked(by, front);
        lemma_ranked_is_stable(by, front, class);
        lemma_ranked_in_rank_order(by, front);
        lemma_slot_bounds(by, r, x);
        let k = slot(by, r, x);
        let head = r.take(k);
        let tail = r.skip(k);
        assert(r =~= head + tail);
        assert(placed(by, r, x) =~= head + seq![x] + tail);
        Seq::filter_distributes_over_add(head, tail, class);
        Seq::filter_distributes_over_add(head, seq![x], class);
        Seq::filter_distributes_over_add(head + seq![x], tail, class);
        lemma_filter_one(x, class);
        if class(x) {
            assert forall|i: int| 0 <= i < tail.len() implies !class(#[trigger] tail[i]) by {
                assert(tail[i] == r[k + i]);
                if class(r[k + i]) {
                    lemma_ties_stand_before_slot(by, r, x, k + i);
                }
            }
            lemma_filter_none(tail, class);
            assert(placed(by, r, x).filter(class) =~= r.filter(class).push(x));
        } else {
            assert(placed(by, r, x).filter(class) =~= r.filter(class));
        }
    }
}

/// Placing commutes with a map under which the ranking is the same.
pub proof fn lemma_placed_mapped<T, U, R: Ranking<T>, Q: Ranking<U>>(
    by: R,
    mapped_by: Q,
    s: Seq<T>,
    x: T,
    f: spec_fn(T) -> U,
)
    requires
        forall|a: T, b: T| #[trigger] by.precedes(&a, &b) == mapped_by.precedes(&f(a), &f(b)),
    ensures
        slot(mapped_by, s.map_values(f), f(x)) == slot(by, s, x),
        placed(by, s, x).map_values(f) == placed(mapped_by, s.map_values(f), f(x)),
{
    lemma_slot_bounds(by, s, x);
    let k = slot(by, s, x);
    let m = s.map_values(f);
    assert forall|i: int| 0 <= i < k implies !mapped_by.precedes(&f(x), &#[trigger] m[i]) by {
        assert(!by.precedes(&x, &s[i]));
    }
    if k < s.len() {
        assert(by.precedes(&x, &s[k]));
    }
    lemma_slot_unique(mapped_by, m, f(x), k);
    assert(placed(by, s, x).map_values(f) =~= placed(mapped_by, m, f(x)));
}

/// Taking the first items commutes with any map.
pub proof fn lemma_top_mapped<T, U>(s: Seq<T>, n: int, f: spec_fn(T) -> U)
    ensures
        top(s, n).map_values(f) == top(s.map_values(f), n),
{
    assert(top(s, n).map_values(f) =~= top(s.map_values(f), n));
}

/// Places `x` into `v` at its slot.
pub fn place<T, R: Ranker<T>>(by: &R, v: &mut Vec<T>, x: T)
    ensures
        final(v)@ == placed(*by, old(v)@, x),
{
    let mut k: usize = 0;
    while k < v.len() && !by.ranks_before(&x, &v[k])
        invariant
            k <= v.len(),
            v == old(v),
            forall|i: int| 0 <= i < k ==> !by.precedes(&x, &#[trigger] v@[i]),
        decreases v.len() - k,
    {
        k += 1;
    }
    proof {
        lemma_slot_unique(*by, v@, x, k as int);
    }
    v.insert(k, x);
}

/// Brings `v` into rank order.
pub fn rank<T, R: Ranker<T>>(by: &R, v: Vec<T>) -> (out: Vec<T>)
    ensures
        out@ == ranked(*by, v@),
{
    let ghost whole = v@;
    let mut rest = v;
    let mut out: Vec<T> = Vec::new();
    let ghost mut done: int = 0;
    while rest.len() > 0
        invariant
            0 <= done <= whole.len(),
            rest@ == whole.skip(done),
            out@ == ranked(*by, whole.take(done)),
        decreases rest.len(),
    {
        let x = rest.remove(0);
        proof {
            let next = whole.take(done + 1);
            assert(next.drop_last() =~= whole.take(done));
            assert(next.last() == x);
            assert(rest@ =~= whole.skip(done + 1));
        }
        place(by, &mut out, x);
        proof {
            done = done + 1;
        }
    }
    proof {
        assert(whole.take(done) =~= whole);
    }
    out
}

} // verus!
