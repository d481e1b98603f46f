//! Stable sorting by a rank.
use vstd::prelude::*;

verus! {

broadcast use vstd::seq::group_seq_axioms;

/// Things that are listed in an order of their own.
pub trait Ranked: Sized {
    /// Whether this is listed before another.
    spec fn outranks(&self, other: &Self) -> bool;

    /// Whether this is listed before another.
    fn comes_first(&self, other: &Self) -> (yes: bool)
        ensures
            yes == self.outranks(other),
    ;
}

/// A list with one more thing in its place: behind everything it does not come
/// before.
pub open spec fn placed<T: Ranked>(list: Seq<T>, x: T) -> Seq<T>
    decreases list.len(),
{
    if list.len() == 0 || !x.outranks(&list.last()) {
        list.push(x)
    } else {
        placed(list.drop_last(), x).push(list.last())
    }
}

/// A list put in order; what ranks alike stays as it stood.
pub open spec fn ranked<T: Ranked>(list: Seq<T>) -> Seq<T>
    decreases list.len(),
{
    if list.len() == 0 {
        Seq::empty()
    } else {
        placed(ranked(list.drop_last()), list.last())
    }
}

/// Whether a list is in order: nothing later comes before anything earlier.
pub open spec fn in_order<T: Ranked>(list: Seq<T>) -> bool {
    forall|i: int, k: int| #![trigger list[i], list[k]] 0 <= i < k < list.len() ==> !list[k].outranks(&list[i])
}

/// Whether coming before is a strict order in which not coming before carries
/// over.
pub open spec fn ranks_consistently<T: Ranked>() -> bool {
    &&& forall|a: T, b: T| #![trigger a.outranks(&b), b.outranks(&a)] a.outranks(&b) ==> !b.outranks(&a)
    &&& forall|a: T, b: T, c: T|
        #![trigger a.outranks(&b), b.outranks(&c)]
        !a.outranks(&b) && !b.outranks(&c) ==> !a.outranks(&c)
}

proof fn placed_is_inserted<T: Ranked>(list: Seq<T>, x: T, p: int)
    requires
        0 <= p <= list.len(),
        forall|k: int| p <= k < list.len() ==> #[trigger] x.outranks(&list[k]),
        p == 0 || !x.outranks(&list[p - 1]),
    ensures
        placed(list, x) == list.insert(p, x),
    decreases list.len(),
{
    if p == list.len() {
        assert(list.insert(p, x) =~= list.push(x));
    } else {
        let front = list.drop_last();
        assert(x.outranks(&list[list.len() - 1]));
        assert forall|k: int| p <= k < front.len() implies #[trigger] x.outranks(&front[k]) by {
            assert(front[k] == list[k]);
            assert(x.outranks(&list[k]));
        }
        if p > 0 {
            assert(front[p - 1] == list[p - 1]);
        }
        placed_is_inserted(front, x, p);
        assert(front.insert(p, x).push(list.last()) =~= list.insert(p, x));
    }
}

/// Puts a list in order; what ranks alike stays as it stood.
pub fn rank<T: Ranked>(mut list: Vec<T>) -> (sorted: Vec<T>)
    ensures
        sorted@ == ranked(list@),
{
    let ghost all = list@;
    let mut sorted: Vec<T> = Vec::new();
    let ghost mut n: int = 0;
    assert(all.take(0).len() == 0);
    while list.len() > 0
        invariant
            0 <= n <= all.len(),
            list@ == all.subrange(n, all.len() as int),
            sorted@ == ranked(all.take(n)),
        decreases list@.len(),
    {
        let x = list.remove(0);
        assert(x == all[n]);
        assert(list@ =~= all.subrange(n + 1, all.len() as int));
        assert(all.take(n + 1).drop_last() =~= all.take(n));
        let mut p: usize = sorted.len();
        while p > 0 && x.comes_first(&sorted[p - 1])
            invariant
                p <= sorted@.len(),
                forall|k: int| p <= k < sorted@.len() ==> #[trigger] x.outranks(&sorted@[k]),
            decreases p,
        {
            p = p - 1;
        }
        proof {
            placed_is_inserted(sorted@, x, p as int);
            n = n + 1;
        }
        sorted.insert(p, x);
    }
    assert(all.take(n) =~= all);
    sorted
}

proof fn placed_adds<T: Ranked>(list: Seq<T>, x: T)
    ensures
        placed(list, x).to_multiset() == list.to_multiset().insert(x),
        placed(list, x).len() == list.len() + 1,
    decreases list.len(),
{
    broadcast use vstd::seq_lib::group_to_multiset_ensures;

    if list.len() > 0 && x.outranks(&list.last()) {
        placed_adds(list.drop_last(), x);
        assert(list =~= list.drop_last().push(list.last()));
        assert(list.drop_last().to_multiset().insert(x).insert(list.last())
            =~= list.drop_last().to_multiset().insert(list.last()).insert(x));
    }
}

/// Putting a list in order neither adds nor loses anything.
pub proof fn law_ranking_is_a_rearrangement<T: Ranked>(list: Seq<T>)
    ensures
        ranked(list).to_multiset() == list.to_multiset(),
        ranked(list).len() == list.len(),
    decreases list.len(),
{
    broadcast use vstd::seq_lib::group_to_multiset_ensures;

    if list.len() > 0 {
        law_ranking_is_a_rearrangement(list.drop_last());
        placed_adds(ranked(list.drop_last()), list.last());
        assert(list =~= list.drop_last().push(list.last()));
    } else {
        assert(list =~= Seq::<T>::empty());
    }
}

proof fn placed_in_order<T: Ranked>(list: Seq<T>, x: T)
    requires
        ranks_consistently::<T>(),
        in_order(list),
    ensures
        in_order(placed(list, x)),
        forall|k: int|
            0 <= k < placed(list, x).len() ==> (#[trigger] placed(list, x)[k]) == x || list.contains(
                placed(list, x)[k],
            ),
    decreases list.len(),
{
    let r = placed(list, x);
    if list.len() == 0 {
    } else if !x.outranks(&list.last()) {
        assert forall|i: int, k: int|
            #![trigger r[i], r[k]]
            0 <= i < k < r.len() implies !r[k].outranks(&r[i]) by {
            if k == list.len() {
                if i < list.len() - 1 {
                    assert(!list[list.len() - 1].outranks(&list[i]));
                }
            } else {
                assert(r[k] == list[k] && r[i] == list[i]);
            }
        }
        assert forall|k: int| 0 <= k < r.len() implies (#[trigger] r[k]) == x || list.contains(r[k]) by {
            if k < list.len() {
                assert(list[k] == r[k]);
            }
        }
    } else {
        let front = list.drop_last();
        let last = list.last();
        assert forall|i: int, k: int|
            #![trigger front[i], front[k]]
            0 <= i < k < front.len() implies !front[k].outranks(&front[i]) by {
            assert(front[k] == list[k] && front[i] == list[i]);
        }
        placed_in_order(front, x);
        let p = placed(front, x);
        assert(!last.outranks(&x));
        assert forall|i: int, k: int|
            #![trigger r[i], r[k]]
            0 <= i < k < r.len() implies !r[k].outranks(&r[i]) by {
            if k == p.len() {
                assert(r[i] == p[i]);
                if p[i] != x {
                    assert(front.contains(p[i]));
                    let m = choose|m: int| 0 <= m < front.len() && front[m] == p[i];
                    assert(front[m] == list[m]);
                    assert(!list[list.len() - 1].outranks(&list[m]));
                }
            } else {
                assert(r[k] == p[k] && r[i] == p[i]);
            }
        }
        assert forall|k: int| 0 <= k < r.len() implies (#[trigger] r[k]) == x || list.contains(r[k]) by {
            if k < p.len() {
                assert(r[k] == p[k]);
                if p[k] != x {
                    let m = choose|m: int| 0 <= m < front.len() && front[m] == p[k];
                    assert(list[m] == p[k]);
                }
            } else {
                assert(list[list.len() - 1] == r[k]);
            }
        }
    }
}

/// Putting a list in order leaves it in order.
pub proof fn law_ranking_orders<T: Ranked>(list: Seq<T>)
    requires
        ranks_consistently::<T>(),
    ensures
        in_order(ranked(list)),
    decreases list.len(),
{
    if list.len() > 0 {
        law_ranking_orders(list.drop_last());
        placed_in_order(ranked(list.drop_last()), list.last());
    }
}

proof fn sorted_alike<T: Ranked>(a: Seq<T>, b: Seq<T>)
    requires
        in_order(a),
        in_order(b),
        a.to_multiset() == b.to_multiset(),
        forall|x: T, y: T|
            #![trigger x.outranks(&y)]
            a.contains(x) && a.contains(y) && x != y ==> x.outranks(&y) || y.outranks(&x),
    ensures
        a == b,
    decreases a.len(),
{
    broadcast use vstd::seq_lib::group_to_multiset_ensures;

    assert(a.to_multiset().len() == a.len());
    assert(b.to_multiset().len() == b.len());
    if a.len() > 0 {
        let x = a[0];
        let y = b[0];
        assert(a.contains(x));
        assert(b.to_multiset().contains(x));
        assert(b.contains(y));
        assert(a.to_multiset().contains(y));
        assert(x == y) by {
            if x != y {
                let i = choose|i: int| 0 <= i < a.len() && a[i] == y;
                let k = choose|k: int| 0 <= k < b.len() && b[k] == x;
                assert(!a[i].outranks(&a[0]));
                assert(!b[k].outranks(&b[0]));
                assert(x.outranks(&y) || y.outranks(&x));
            }
        }
        let a1 = a.remove(0);
        let b1 = b.remove(0);
        assert(a1.to_multiset() =~= b1.to_multiset());
        assert forall|v: T| a1.contains(v) implies a.contains(v) by {
            let i = choose|i: int| 0 <= i < a1.len() && a1[i] == v;
            assert(a[i + 1] == v);
        }
        assert(in_order(a1)) by {
            assert forall|i: int, k: int| #![trigger a1[i], a1[k]] 0 <= i < k < a1.len() implies !a1[k].outranks(
                &a1[i],
            ) by {
                assert(a1[i] == a[i + 1] && a1[k] == a[k + 1]);
            }
        }
        assert(in_order(b1)) by {
            assert forall|i: int, k: int| #![trigger b1[i], b1[k]] 0 <= i < k < b1.len() implies !b1[k].outranks(
                &b1[i],
            ) by {
                assert(b1[i] == b[i + 1] && b1[k] == b[k + 1]);
            }
        }
        sorted_alike(a1, b1);
        assert(a =~= seq![x] + a1);
        assert(b =~= seq![y] + b1);
    } else {
        assert(a =~= b);
    }
}

/// Where any two different things of a list come one before the other, what
/// the list looks like in order does not depend on how it stood.
pub proof fn law_ranking_is_canonical<T: Ranked>(a: Seq<T>, b: Seq<T>)
    requires
        ranks_consistently::<T>(),
        a.to_multiset() == b.to_multiset(),
        forall|x: T, y: T|
            #![trigger x.outranks(&y)]
            a.contains(x) && a.contains(y) && x != y ==> x.outranks(&y) || y.outranks(&x),
    ensures
        ranked(a) == ranked(b),
{
    law_ranking_is_a_rearrangement(a);
    law_ranking_is_a_rearrangement(b);
    law_ranking_orders(a);
    law_ranking_orders(b);
    broadcast use vstd::seq_lib::group_to_multiset_ensures;

    assert forall|x: T| ranked(a).contains(x) implies a.contains(x) by {
        assert(ranked(a).to_multiset().contains(x));
    }
    sorted_alike(ranked(a), ranked(b));
}

/// A list that is in order already stays as it is: what ranks alike keeps its
/// order.
pub proof fn law_an_ordered_list_stays<T: Ranked>(list: Seq<T>)
    requires
        in_order(list),
    ensures
        ranked(list) == list,
    decreases list.len(),
{
    if list.len() > 0 {
        let front = list.drop_last();
        assert(in_order(front)) by {
            assert forall|i: int, k: int| #![trigger front[i], front[k]] 0 <= i < k < front.len() implies !front[k].outranks(
                &front[i],
            ) by {
                assert(list[i] == front[i] && list[k] == front[k]);
            }
        }
        law_an_ordered_list_stays(front);
        if front.len() > 0 {
            assert(!list[list.len() - 1].outranks(&list[list.len() - 2]));
        }
        assert(front.push(list.last()) =~= list);
    } else {
        assert(ranked(list) =~= list);
    }
}

} // verus!
