//! Sorting that keeps equals in the order they came in.
//!
//! The order is given by a relation `le`, read "may stand before". A list
//! is sorted by putting its items, one after the other, into a list that is
//! sorted already: each behind all that may stand before it.

use vstd::prelude::*;

verus! {

/// The items with `item` put in: behind the last one that may stand before
/// it, and so before all that may not.
pub open spec fn inserted<T>(items: Seq<T>, item: T, le: spec_fn(T, T) -> bool) -> Seq<T>
    decreases items.len(),
{
    if items.len() == 0 || le(items.last(), item) {
        items.push(item)
    } else {
        inserted(items.drop_last(), item, le).push(items.last())
    }
}

/// The items in order. Items of which each may stand before the other keep
/// the order they came in.
pub open spec fn sorted<T>(items: Seq<T>, le: spec_fn(T, T) -> bool) -> Seq<T>
    decreases items.len(),
{
    if items.len() == 0 {
        Seq::empty()
    } else {
        inserted(sorted(items.drop_last(), le), items.last(), le)
    }
}

/// Whether every item may stand before all that follow it.
pub open spec fn ordered<T>(items: Seq<T>, le: spec_fn(T, T) -> bool) -> bool {
    forall|i: int, j: int| 0 <= i < j < items.len() ==> le(#[trigger] items[i], #[trigger] items[j])
}

/// Whether of any two items one may stand before the other, and whether
/// what may stand before an item may stand before all that the item may
/// stand before.
pub open spec fn is_order<T>(le: spec_fn(T, T) -> bool) -> bool {
    &&& forall|a: T, b: T| #[trigger] le(a, b) || le(b, a)
    &&& forall|a: T, b: T, c: T| #[trigger] le(a, b) && #[trigger] le(b, c) ==> le(a, c)
}

/// The items that are of a class, in the order they stand in.
pub open spec fn those<T>(items: Seq<T>, class: spec_fn(T) -> bool) -> Seq<T>
    decreases items.len(),
{
    if items.len() == 0 {
        Seq::empty()
    } else if class(items.last()) {
        those(items.drop_last(), class).push(items.last())
    } else {
        those(items.drop_last(), class)
    }
}

/// Whether any two items of a class may stand before each other.
pub open spec fn is_level<T>(class: spec_fn(T) -> bool, le: spec_fn(T, T) -> bool) -> bool {
    forall|a: T, b: T| #[trigger] class(a) && #[trigger] class(b) ==> le(a, b)
}

/// The items of a class in a list with one more item at its end.
pub proof fn those_of_one_more<T>(items: Seq<T>, item: T, class: spec_fn(T) -> bool)
    ensures
        those(items.push(item), class) == if class(item) {
            those(items, class).push(item)
        } else {
            those(items, class)
        },
{
    assert(items.push(item).drop_last() =~= items);
    assert(items.push(item).last() == item);
}

/// Putting an item in moves no item of its level: among the items of a
/// class of which any two may stand before each other, the new one comes
/// last and the others stay as they were.
pub proof fn inserted_is_stable<T>(
    items: Seq<T>,
    item: T,
    le: spec_fn(T, T) -> bool,
    class: spec_fn(T) -> bool,
)
    requires
        is_level(class, le),
    ensures
        those(inserted(items, item, le), class) == those(items.push(item), class),
    decreases items.len(),
{
    if items.len() == 0 || le(items.last(), item) {
    } else {
        let front = items.drop_last();
        let last = items.last();
        let mid = inserted(front, item, le);
        inserted_is_stable(front, item, le, class);
        those_of_one_more(mid, last, class);
        those_of_one_more(front, item, class);
        those_of_one_more(front, last, class);
        those_of_one_more(items, item, class);
        assert(front.push(last) =~= items);
        if class(last) && class(item) {
            assert(le(last, item));
        }
    }
}

/// Sorting is stable: items of which each may stand before the other keep
/// the order they came in. Among the items of any class of which any two
/// may stand before each other, the sorted list has the order of the list
/// that was given.
pub proof fn sorted_is_stable<T>(items: Seq<T>, le: spec_fn(T, T) -> bool, class: spec_fn(T) -> bool)
    requires
        is_level(class, le),
    ensures
        those(sorted(items, le), class) == those(items, class),
    decreases items.len(),
{
    if items.len() > 0 {
        let front = items.drop_last();
        sorted_is_stable(front, le, class);
        inserted_is_stable(sorted(front, le), items.last(), le, class);
        those_of_one_more(sorted(front, le), items.last(), class);
    }
}

/// Putting an item in at the place behind which no item may stand before
/// it, and before which the nearest one may, is putting it in in order.
pub proof fn inserted_at<T>(items: Seq<T>, item: T, le: spec_fn(T, T) -> bool, at: int)
    requires
        0 <= at <= items.len(),
        forall|j: int| at <= j < items.len() ==> !le(#[trigger] items[j], item),
        at > 0 ==> le(items[at - 1], item),
    ensures
        inserted(items, item, le) == items.insert(at, item),
    decreases items.len(),
{
    if at == items.len() {
        assert(items.push(item) =~= items.insert(at, item));
    } else {
        let front = items.drop_last();
        inserted_at(front, item, le, at);
        assert(front.insert(at, item).push(items.last()) =~= items.insert(at, item));
    }
}

/// Putting an item into an ordered list leaves it ordered, and adds the
/// item and nothing else.
pub proof fn inserted_keeps_order<T>(items: Seq<T>, item: T, le: spec_fn(T, T) -> bool)
    requires
        is_order(le),
        ordered(items, le),
    ensures
        ordered(inserted(items, item, le), le),
        inserted(items, item, le).to_multiset() == items.to_multiset().insert(item),
        inserted(items, item, le).len() == items.len() + 1,
        forall|i: int|
            0 <= i < inserted(items, item, le).len() ==> (#[trigger] inserted(items, item, le)[i]
                == item || items.contains(inserted(items, item, le)[i])),
    decreases items.len(),
{
    broadcast use vstd::seq_lib::group_to_multiset_ensures;

    if items.len() == 0 || le(items.last(), item) {
        let out = items.push(item);
        assert forall|i: int| 0 <= i < out.len() implies (#[trigger] out[i] == item
            || items.contains(out[i])) by {
            if i < items.len() {
                assert(items[i] == out[i]);
            }
        }
        assert forall|i: int, j: int| 0 <= i < j < out.len() implies le(
            #[trigger] out[i],
            #[trigger] out[j],
        ) by {
            if j < items.len() {
                assert(out[i] == items[i] && out[j] == items[j]);
            } else {
                assert(out[i] == items[i]);
                if i < items.len() - 1 {
                    assert(le(items[i], items[items.len() - 1]));
                }
            }
        }
    } else {
        let front = items.drop_last();
        let last = items.last();
        assert(ordered(front, le)) by {
            assert forall|i: int, j: int| 0 <= i < j < front.len() implies le(
                #[trigger] front[i],
                #[trigger] front[j],
            ) by {
                assert(front[i] == items[i] && front[j] == items[j]);
            }
        }
        inserted_keeps_order(front, item, le);
        let mid = inserted(front, item, le);
        let out = mid.push(last);
        assert(items =~= front.push(last));
        assert(out.to_multiset() =~= items.to_multiset().insert(item));
        assert forall|i: int| 0 <= i < out.len() implies (#[trigger] out[i] == item
            || items.contains(out[i])) by {
            if i < mid.len() {
                assert(out[i] == mid[i]);
                if mid[i] != item {
                    let k = choose|k: int| 0 <= k < front.len() && front[k] == mid[i];
                    assert(items[k] == mid[i]);
                }
            } else {
                assert(items[items.len() - 1] == out[i]);
            }
        }
        assert forall|i: int, j: int| 0 <= i < j < out.len() implies le(
            #[trigger] out[i],
            #[trigger] out[j],
        ) by {
            if j < mid.len() {
                assert(out[i] == mid[i] && out[j] == mid[j]);
            } else {
                assert(out[i] == mid[i]);
                assert(out[j] == last);
                if mid[i] == item {
                    assert(le(item, last) || le(last, item));
                } else {
                    let k = choose|k: int| 0 <= k < front.len() && front[k] == mid[i];
                    assert(items[k] == mid[i]);
                    assert(le(items[k], items[items.len() - 1]));
                }
            }
        }
    }
}

/// Sorting puts the items in order and neither adds nor loses one.
pub proof fn sorted_is_ordered<T>(items: Seq<T>, le: spec_fn(T, T) -> bool)
    requires
        is_order(le),
    ensures
        ordered(sorted(items, le), le),
        sorted(items, le).to_multiset() == items.to_multiset(),
        sorted(items, le).len() == items.len(),
    decreases items.len(),
{
    broadcast use vstd::seq_lib::group_to_multiset_ensures;

    if items.len() > 0 {
        sorted_is_ordered(items.drop_last(), le);
        inserted_keeps_order(sorted(items.drop_last(), le), items.last(), le);
        assert(items =~= items.drop_last().push(items.last()));
    }
}

} // verus!
