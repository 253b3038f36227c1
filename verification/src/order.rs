//! Stable sorting by a rule that says which of two items comes before the other.
use vstd::prelude::*;

verus! {

/// A sorted list with one more item, behind those that it does not come before.
pub open spec fn insert_by<A>(s: Seq<A>, x: A, before: spec_fn(A, A) -> bool) -> Seq<A>
    decreases s.len(),
{
    if s.len() == 0 {
        seq![x]
    } else if before(x, s.last()) {
        insert_by(s.drop_last(), x, before).push(s.last())
    } else {
        s.push(x)
    }
}

/// The items sorted; those of which neither comes before the other stay in their
/// order.
pub open spec fn sorted_by<A>(s: Seq<A>, before: spec_fn(A, A) -> bool) -> Seq<A>
    decreases s.len(),
{
    if s.len() == 0 {
        s
    } else {
        insert_by(sorted_by(s.drop_last(), before), s.last(), before)
    }
}

/// Whether the rule orders: no two items come each before the other, and what does
/// not come before an item does not come before what the item does not come before.
pub open spec fn orders<A>(before: spec_fn(A, A) -> bool) -> bool {
    &&& forall|a: A, b: A| #[trigger] before(a, b) ==> !before(b, a)
    &&& forall|a: A, b: A, c: A|
        !(#[trigger] before(b, a)) && !(#[trigger] before(c, b)) ==> !before(c, a)
}

/// Whether no item comes before one that stands ahead of it.
pub open spec fn in_order<A>(s: Seq<A>, before: spec_fn(A, A) -> bool) -> bool {
    forall|i: int, j: int| 0 <= i < j < s.len() ==> !before(#[trigger] s[j], #[trigger] s[i])
}

/// Where an item is inserted: behind the last that it does not come before.
pub proof fn lemma_insert_at<A>(s: Seq<A>, x: A, before: spec_fn(A, A) -> bool, k: int)
    requires
        0 <= k <= s.len(),
        forall|i: int| k <= i < s.len() ==> before(x, #[trigger] s[i]),
        k > 0 ==> !before(x, s[k - 1]),
    ensures
        insert_by(s, x, before) == s.take(k).push(x) + s.skip(k),
    decreases s.len(),
{
    if s.len() == 0 {
        assert(s.take(k).push(x) + s.skip(k) =~= seq![x]);
    } else if k == s.len() {
        assert(s.take(k).push(x) + s.skip(k) =~= s.push(x));
    } else {
        let d = s.drop_last();
        assert(before(x, s[s.len() - 1]));
        assert forall|i: int| k <= i < d.len() implies before(x, #[trigger] d[i]) by {
            assert(d[i] == s[i]);
        }
        lemma_insert_at(d, x, before, k);
        assert(d.take(k) =~= s.take(k));
        assert((d.take(k).push(x) + d.skip(k)).push(s.last()) =~= s.take(k).push(x) + s.skip(k));
    }
}

proof fn lemma_insert_in_order<A>(s: Seq<A>, x: A, before: spec_fn(A, A) -> bool)
    requires
        orders(before),
        in_order(s, before),
    ensures
        in_order(insert_by(s, x, before), before),
        insert_by(s, x, before).to_multiset() == s.to_multiset().insert(x),
        insert_by(s, x, before).len() == s.len() + 1,
        forall|i: int|
            0 <= i < insert_by(s, x, before).len() ==> (#[trigger] insert_by(s, x, before)[i]) == x
                || s.contains(insert_by(s, x, before)[i]),
    decreases s.len(),
{
    broadcast use vstd::seq_lib::group_to_multiset_ensures;

    let r = insert_by(s, x, before);
    if s.len() == 0 {
        assert(s.push(x) =~= seq![x]);
    } else if before(x, s.last()) {
        let d = s.drop_last();
        lemma_insert_in_order(d, x, before);
        let t = insert_by(d, x, before);
        assert(d.push(s.last()) =~= s);
        assert forall|i: int, j: int| 0 <= i < j < r.len() implies !before(
            #[trigger] r[j],
            #[trigger] r[i],
        ) by {
            if j == t.len() {
                assert(t[i] == x || d.contains(t[i]));
                if t[i] != x {
                    let q = choose|q: int| 0 <= q < d.len() && d[q] == t[i];
                    assert(s[q] == d[q]);
                    assert(!before(s[s.len() - 1], s[q]));
                }
            } else {
                assert(r[j] == t[j] && r[i] == t[i]);
            }
        }
        assert forall|i: int| 0 <= i < r.len() implies (#[trigger] r[i]) == x || s.contains(
            r[i],
        ) by {
            if i < t.len() {
                if t[i] != x {
                    let q = choose|q: int| 0 <= q < d.len() && d[q] == t[i];
                    assert(s[q] == d[q]);
                }
            } else {
                assert(s[s.len() - 1] == r[i]);
            }
        }
        assert(t.to_multiset().insert(s.last()) =~= s.to_multiset().insert(x));
    } else {
        assert forall|i: int, j: int| 0 <= i < j < r.len() implies !before(
            #[trigger] r[j],
            #[trigger] r[i],
        ) by {
            if j == s.len() {
                if i < s.len() - 1 {
                    assert(!before(s[s.len() - 1], s[i]));
                    assert(!before(x, s[s.len() - 1]));
                }
            }
        }
        assert forall|i: int| 0 <= i < r.len() implies (#[trigger] r[i]) == x || s.contains(
            r[i],
        ) by {
            if i < s.len() {
                assert(s[i] == r[i]);
            }
        }
    }
}

/// Sorting puts the items in order and neither adds nor loses any.
pub proof fn lemma_sorted_by<A>(s: Seq<A>, before: spec_fn(A, A) -> bool)
    requires
        orders(before),
    ensures
        in_order(sorted_by(s, before), before),
        sorted_by(s, before).to_multiset() == s.to_multiset(),
        sorted_by(s, before).len() == s.len(),
    decreases s.len(),
{
    broadcast use vstd::seq_lib::group_to_multiset_ensures;

    if s.len() > 0 {
        lemma_sorted_by(s.drop_last(), before);
        lemma_insert_in_order(sorted_by(s.drop_last(), before), s.last(), before);
        assert(s.drop_last().push(s.last()) =~= s);
    }
}

/// Sorting loses no item and adds none.
pub proof fn lemma_sorted_by_contains<A>(s: Seq<A>, before: spec_fn(A, A) -> bool)
    ensures
        sorted_by(s, before).len() == s.len(),
        forall|i: int|
            0 <= i < sorted_by(s, before).len() ==> s.contains(#[trigger] sorted_by(s, before)[i]),
    decreases s.len(),
{
    if s.len() > 0 {
        let d = s.drop_last();
        lemma_sorted_by_contains(d, before);
        let t = sorted_by(d, before);
        lemma_insert_contains(t, s.last(), before);
        let r = sorted_by(s, before);
        assert forall|i: int| 0 <= i < r.len() implies s.contains(#[trigger] r[i]) by {
            if r[i] == s.last() {
                assert(s[s.len() - 1] == r[i]);
            } else {
                assert(t.contains(r[i]));
                let q = choose|q: int| 0 <= q < t.len() && t[q] == r[i];
                assert(d.contains(t[q]));
                let p = choose|p: int| 0 <= p < d.len() && d[p] == t[q];
                assert(s[p] == d[p]);
            }
        }
    }
}

proof fn lemma_insert_contains<A>(s: Seq<A>, x: A, before: spec_fn(A, A) -> bool)
    ensures
        insert_by(s, x, before).len() == s.len() + 1,
        forall|i: int|
            0 <= i < insert_by(s, x, before).len() ==> (#[trigger] insert_by(s, x, before)[i]) == x
                || s.contains(insert_by(s, x, before)[i]),
    decreases s.len(),
{
    let r = insert_by(s, x, before);
    if s.len() > 0 && before(x, s.last()) {
        let d = s.drop_last();
        lemma_insert_contains(d, x, before);
        let t = insert_by(d, x, before);
        assert forall|i: int| 0 <= i < r.len() implies (#[trigger] r[i]) == x || s.contains(
            r[i],
        ) by {
            if i < t.len() {
                assert(r[i] == t[i]);
                if t[i] != x {
                    let q = choose|q: int| 0 <= q < d.len() && d[q] == t[i];
                    assert(s[q] == d[q]);
                }
            } else {
                assert(s[s.len() - 1] == r[i]);
            }
        }
    } else {
        assert forall|i: int| 0 <= i < r.len() implies (#[trigger] r[i]) == x || s.contains(
            r[i],
        ) by {
            if i < s.len() {
                assert(s[i] == r[i]);
            }
        }
    }
}

} // verus!
