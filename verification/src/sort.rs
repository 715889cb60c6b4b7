//! Reversing lists, and sorting them by a rank.
use vstd::prelude::*;

verus! {

/// The items in the opposite order.
pub(crate) fn reversed<T>(items: Vec<T>) -> (r: Vec<T>)
    ensures
        r@ == items@.reverse(),
{
    let mut rest = items;
    let mut out: Vec<T> = Vec::new();
    while rest.len() > 0
        invariant
            rest@.len() <= items@.len(),
            rest@ == items@.take(rest@.len() as int),
            out@ == items@.skip(rest@.len() as int).reverse(),
        decreases rest@.len(),
    {
        let ghost n = rest@.len() - 1;
        match rest.pop() {
            Some(item) => {
                out.push(item);
                assert(rest@ =~= items@.take(n));
                assert(out@ =~= items@.skip(n).reverse());
            },
            None => {},
        }
    }
    assert(items@.skip(0) =~= items@);
    out
}

/// A value that can be ranked.
pub trait Ranked: DeepView + Sized {
    /// `a` ranks strictly before `b`.
    spec fn before(a: Self::V, b: Self::V) -> bool;

    /// Does the value rank strictly before another?
    fn ranks_before(&self, other: &Self) -> (r: bool)
        ensures
            r == Self::before(self.deep_view(), other.deep_view()),
    ;
}

/// A list with one more item, put behind every item but those at its end that it ranks
/// before.
pub open spec fn inserted<T>(s: Seq<T>, x: T, less: spec_fn(T, T) -> bool) -> Seq<T>
    decreases s.len(),
{
    if s.len() > 0 && less(x, s.last()) {
        inserted(s.drop_last(), x, less).push(s.last())
    } else {
        s.push(x)
    }
}

/// The list in order. Items of equal rank keep their order.
pub open spec fn sorted<T>(s: Seq<T>, less: spec_fn(T, T) -> bool) -> Seq<T>
    decreases s.len(),
{
    if s.len() == 0 {
        s
    } else {
        inserted(sorted(s.drop_last(), less), s.last(), less)
    }
}

/// The rank of a type.
pub open spec fn rank<T: Ranked>() -> spec_fn(T::V, T::V) -> bool {
    |a: T::V, b: T::V| T::before(a, b)
}

/// No item ranks before one that stands earlier.
pub open spec fn in_order<T>(s: Seq<T>, less: spec_fn(T, T) -> bool) -> bool {
    forall|i: int, j: int| 0 <= i < j < s.len() ==> !less(#[trigger] s[j], #[trigger] s[i])
}

/// The relation ranks: nothing comes before itself, and the order carries over.
pub open spec fn is_rank<T>(less: spec_fn(T, T) -> bool) -> bool {
    &&& forall|a: T, b: T| #[trigger] less(a, b) ==> !less(b, a)
    &&& forall|a: T, b: T, c: T|
        !#[trigger] less(b, a) && !#[trigger] less(c, b) ==> !less(c, a)
}

proof fn lemma_inserted<T>(s: Seq<T>, x: T, less: spec_fn(T, T) -> bool)
    ensures
        inserted(s, x, less).len() == s.len() + 1,
        inserted(s, x, less).to_multiset() == s.to_multiset().insert(x),
        is_rank(less) && in_order(s, less) ==> in_order(inserted(s, x, less), less),
        is_rank(less) && in_order(s, less) ==> forall|i: int|
            0 <= i < inserted(s, x, less).len() ==> inserted(s, x, less)[i] == x || exists|j: int|
                0 <= j < s.len() && #[trigger] s[j] == inserted(s, x, less)[i],
    decreases s.len(),
{
    broadcast use vstd::seq_lib::group_to_multiset_ensures;

    let r = inserted(s, x, less);
    if s.len() > 0 && less(x, s.last()) {
        let init = s.drop_last();
        let inner = inserted(init, x, less);
        lemma_inserted(init, x, less);
        assert(init.push(s.last()) =~= s);
        if is_rank(less) && in_order(s, less) {
            assert(in_order(init, less));
            assert forall|i: int| 0 <= i < r.len() implies r[i] == x || exists|j: int|
                0 <= j < s.len() && #[trigger] s[j] == r[i] by {
                if i < inner.len() {
                    assert(r[i] == inner[i]);
                    if inner[i] != x {
                        let j = choose|j: int| 0 <= j < init.len() && #[trigger] init[j] == inner[i];
                        assert(s[j] == r[i]);
                    }
                } else {
                    assert(s[s.len() - 1] == r[i]);
                }
            }
            assert forall|i: int, j: int| 0 <= i < j < r.len() implies !less(
                #[trigger] r[j],
                #[trigger] r[i],
            ) by {
                if j < inner.len() {
                    assert(!less(inner[j], inner[i]));
                } else {
                    assert(r[j] == s.last());
                    assert(r[i] == inner[i]);
                    if inner[i] != x {
                        let k = choose|k: int| 0 <= k < init.len() && #[trigger] init[k] == inner[i];
                        assert(!less(s[s.len() - 1], s[k]));
                    }
                }
            }
        }
    } else {
        assert(r =~= s.push(x));
        if is_rank(less) && in_order(s, less) {
            assert forall|i: int, j: int| 0 <= i < j < r.len() implies !less(
                #[trigger] r[j],
                #[trigger] r[i],
            ) by {
                if j < s.len() {
                    assert(!less(s[j], s[i]));
                } else if i < s.len() - 1 {
                    assert(!less(s[s.len() - 1], s[i]));
                }
            }
            assert forall|i: int| 0 <= i < r.len() implies r[i] == x || exists|j: int|
                0 <= j < s.len() && #[trigger] s[j] == r[i] by {
                if i < s.len() {
                    assert(s[i] == r[i]);
                }
            }
        }
    }
}

/// Sorting keeps all items and puts them in order.
pub proof fn sorting_orders_all_items<T>(s: Seq<T>, less: spec_fn(T, T) -> bool)
    ensures
        sorted(s, less).len() == s.len(),
        sorted(s, less).to_multiset() == s.to_multiset(),
        is_rank(less) ==> in_order(sorted(s, less), less),
    decreases s.len(),
{
    broadcast use vstd::seq_lib::group_to_multiset_ensures;

    if s.len() > 0 {
        sorting_orders_all_items(s.drop_last(), less);
        lemma_inserted(sorted(s.drop_last(), less), s.last(), less);
        assert(s.drop_last().push(s.last()) =~= s);
    }
}

/// Only equal items rank the same.
pub open spec fn tells_apart<T>(less: spec_fn(T, T) -> bool) -> bool {
    forall|a: T, b: T| #![trigger less(a, b)] !less(a, b) && !less(b, a) ==> a == b
}

/// Where the rank tells all items apart, the order in which they are given has no say.
pub proof fn sorting_ignores_the_given_order<T>(
    s: Seq<T>,
    t: Seq<T>,
    less: spec_fn(T, T) -> bool,
)
    requires
        is_rank(less),
        tells_apart(less),
        s.to_multiset() == t.to_multiset(),
    ensures
        sorted(s, less) == sorted(t, less),
{
    let leq = |a: T, b: T| !less(b, a);
    sorting_orders_all_items(s, less);
    sorting_orders_all_items(t, less);
    assert(vstd::relations::total_ordering(leq)) by {
        assert forall|a: T| #[trigger] leq(a, a) by {
            assert(less(a, a) ==> !less(a, a));
        }
    }
    vstd::seq_lib::lemma_sorted_unique(sorted(s, less), sorted(t, less), leq);
}

/// An item goes in before the items that it ranks before.
proof fn lemma_inserted_at<T>(s: Seq<T>, x: T, less: spec_fn(T, T) -> bool, i: int)
    requires
        0 <= i <= s.len(),
        forall|k: int| i <= k < s.len() ==> less(x, #[trigger] s[k]),
        i > 0 ==> !less(x, s[i - 1]),
    ensures
        inserted(s, x, less) == s.insert(i, x),
    decreases s.len(),
{
    if i < s.len() {
        let init = s.drop_last();
        assert(less(x, s[s.len() - 1]));
        assert forall|k: int| i <= k < init.len() implies less(x, #[trigger] init[k]) by {
            assert(init[k] == s[k]);
        }
        lemma_inserted_at(init, x, less, i);
        assert(init.insert(i, x).push(s.last()) =~= s.insert(i, x));
    } else {
        assert(s.insert(i, x) =~= s.push(x));
    }
}

/// Puts items in order. Items of equal rank keep their order.
pub fn sort_items<T: Ranked>(items: Vec<T>) -> (r: Vec<T>)
    ensures
        r.deep_view() == sorted(items.deep_view(), rank::<T>()),
{
    let ghost all = items.deep_view();
    let ghost given = items@;
    let mut rest = reversed(items);
    let mut out: Vec<T> = Vec::new();
    assert(out.deep_view() =~= sorted(all.take(0), rank::<T>()));
    while rest.len() > 0
        invariant
            given.len() == all.len(),
            rest@.len() <= all.len(),
            forall|i: int| 0 <= i < all.len() ==> (#[trigger] given[i]).deep_view() == all[i],
            forall|i: int|
                #![trigger rest@[i]]
                0 <= i < rest@.len() ==> rest@[i] == given[given.len() - 1 - i],
            out.deep_view() == sorted(all.take(all.len() - rest@.len()), rank::<T>()),
        decreases rest@.len(),
    {
        let ghost n = all.len() - rest@.len();
        let ghost before = rest@;
        match rest.pop() {
            Some(item) => {
                assert(before[before.len() - 1] == given[n]);
                assert(given[n].deep_view() == all[n]);
                assert(all.take(n + 1).drop_last() =~= all.take(n));
                let ghost done = out.deep_view();
                let ghost x = item.deep_view();
                let mut i: usize = out.len();
                while i > 0 && item.ranks_before(&out[i - 1])
                    invariant
                        i <= out@.len(),
                        done == out.deep_view(),
                        x == item.deep_view(),
                        forall|k: int|
                            i <= k < done.len() ==> T::before(x, #[trigger] done[k]),
                    decreases i,
                {
                    i -= 1;
                    assert(done[i as int] == out@[i as int].deep_view());
                }
                proof {
                    if i > 0 {
                        assert(done[i - 1] == out@[i - 1].deep_view());
                    }
                    lemma_inserted_at(done, x, rank::<T>(), i as int);
                }
                out.insert(i, item);
                assert(out.deep_view() =~= done.insert(i as int, x));
            },
            None => {},
        }
    }
    assert(all.take(all.len() as int) =~= all);
    out
}

} // verus!
