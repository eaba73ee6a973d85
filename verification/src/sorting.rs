//! Sorting that keeps items of the same rank in their order.

use vstd::prelude::*;

verus! {

/// Items that have a rank.
pub trait Ranked: Sized {
    /// The item ranks no higher than the other.
    spec fn at_most(self, other: Self) -> bool;

    /// Whether the item ranks no higher than the other.
    fn is_at_most(&self, other: &Self) -> (result: bool)
        ensures
            result == self.at_most(*other),
    ;

    /// Ranks can be chained.
    proof fn ranks_chain(a: Self, b: Self, c: Self)
        requires
            a.at_most(b),
            b.at_most(c),
        ensures
            a.at_most(c),
    ;

    /// Any two ranks can be compared.
    proof fn ranks_compare(a: Self, b: Self)
        ensures
            a.at_most(b) || b.at_most(a),
    ;
}

/// A list with one more item, behind all those that rank no higher at the end of the list.
pub open spec fn inserted<T: Ranked>(items: Seq<T>, item: T) -> Seq<T>
    decreases items.len(),
{
    if items.len() == 0 || items.last().at_most(item) {
        items.push(item)
    } else {
        inserted(items.drop_last(), item).push(items.last())
    }
}

/// The items in the order of their ranks.
pub open spec fn sorted<T: Ranked>(items: Seq<T>) -> Seq<T>
    decreases items.len(),
{
    if items.len() == 0 {
        items
    } else {
        inserted(sorted(items.drop_last()), items.last())
    }
}

/// The ranks never go down.
pub open spec fn in_order<T: Ranked>(items: Seq<T>) -> bool {
    forall|i: int, j: int|
        0 <= i < j < items.len() ==> (#[trigger] items[i]).at_most(#[trigger] items[j])
}

proof fn insertion_keeps_order<T: Ranked>(items: Seq<T>, item: T)
    requires
        in_order(items),
    ensures
        in_order(inserted(items, item)),
        inserted(items, item).to_multiset() == items.to_multiset().insert(item),
        inserted(items, item).len() == items.len() + 1,
        forall|i: int|
            0 <= i < inserted(items, item).len() ==> #[trigger] inserted(items, item)[i] == item
                || items.contains(inserted(items, item)[i]),
    decreases items.len(),
{
    broadcast use vstd::seq_lib::group_to_multiset_ensures;

    if items.len() == 0 || items.last().at_most(item) {
        assert forall|i: int| 0 <= i < items.len() implies (#[trigger] items[i]).at_most(item) by {
            if i < items.len() - 1 {
                T::ranks_chain(items[i], items[items.len() - 1], item);
            }
        }
        assert forall|i: int| 0 <= i < items.len() implies #[trigger] items.push(item)[i] == item
            || items.contains(items.push(item)[i]) by {
            assert(items.push(item)[i] == items[i]);
        }
    } else {
        let shorter = items.drop_last();
        let last = items.last();
        insertion_keeps_order(shorter, item);
        let inner = inserted(shorter, item);
        T::ranks_compare(last, item);
        assert forall|i: int| 0 <= i < inner.len() implies (#[trigger] inner[i]).at_most(last) by {
            if inner[i] != item {
                let k = choose|k: int| 0 <= k < shorter.len() && shorter[k] == inner[i];
                assert(items[k].at_most(items[items.len() - 1]));
            }
        }
        assert(items =~= shorter.push(last));
        assert(items.to_multiset() =~= shorter.to_multiset().insert(last));
        assert(inner.push(last).to_multiset() =~= inner.to_multiset().insert(last));
        assert(items.to_multiset().insert(item) =~= shorter.to_multiset().insert(item).insert(
            last,
        ));
        let all = inserted(items, item);
        assert forall|i: int| 0 <= i < all.len() implies #[trigger] all[i] == item
            || items.contains(all[i]) by {
            if i < inner.len() {
                assert(all[i] == inner[i]);
                if inner[i] != item {
                    let k = choose|k: int| 0 <= k < shorter.len() && shorter[k] == inner[i];
                    assert(items[k] == inner[i]);
                }
            } else {
                assert(items[items.len() - 1] == last);
            }
        }
    }
}

/// Sorting keeps the items and puts their ranks in order.
pub proof fn sorting_is_a_permutation<T: Ranked>(items: Seq<T>)
    ensures
        in_order(sorted(items)),
        sorted(items).to_multiset() == items.to_multiset(),
        sorted(items).len() == items.len(),
    decreases items.len(),
{
    broadcast use vstd::seq_lib::group_to_multiset_ensures;

    if items.len() > 0 {
        let shorter = items.drop_last();
        sorting_is_a_permutation(shorter);
        insertion_keeps_order(sorted(shorter), items.last());
        assert(items =~= shorter.push(items.last()));
    }
}

proof fn insertion_point<T: Ranked>(items: Seq<T>, item: T, position: int)
    requires
        0 <= position <= items.len(),
        position == 0 || items[position - 1].at_most(item),
        forall|i: int| position <= i < items.len() ==> !(#[trigger] items[i]).at_most(item),
    ensures
        inserted(items, item) == items.insert(position, item),
    decreases items.len(),
{
    if position == items.len() {
        assert(items.insert(position, item) =~= items.push(item));
    } else {
        assert(!items[items.len() - 1].at_most(item));
        insertion_point(items.drop_last(), item, position);
        assert(items.insert(position, item) =~= items.drop_last().insert(position, item).push(
            items.last(),
        ));
    }
}

/// Puts an item into a sorted list.
pub fn insert<T: Ranked>(items: &mut Vec<T>, item: T)
    ensures
        final(items)@ == inserted(old(items)@, item),
{
    let mut position: usize = items.len();
    while position > 0 && !items[position - 1].is_at_most(&item)
        invariant
            position <= items@.len(),
            items@ == old(items)@,
            forall|i: int| position <= i < items@.len() ==> !(#[trigger] items@[i]).at_most(item),
        decreases position,
    {
        position -= 1;
    }
    proof {
        insertion_point(items@, item, position as int);
    }
    items.insert(position, item);
}

/// Sorts items by rank.
pub fn sort<T: Ranked>(items: Vec<T>) -> (sorted_items: Vec<T>)
    ensures
        sorted_items@ == sorted(items@),
{
    let ghost all = items@;
    let mut sorted_items: Vec<T> = Vec::new();
    proof {
        assert(all.take(0) =~= Seq::empty());
        assert(sorted_items@ =~= sorted(all.take(0)));
    }
    for item in it: items
        invariant
            it.seq() == all,
            sorted_items@ == sorted(all.take(it.index() as int)),
    {
        proof {
            assert(all.take(it.index() + 1).drop_last() =~= all.take(it.index() as int));
        }
        insert(&mut sorted_items, item);
    }
    proof {
        assert(all.take(all.len() as int) =~= all);
    }
    sorted_items
}

} // verus!
