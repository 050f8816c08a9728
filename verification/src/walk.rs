//! The tree layout of the storage sequence and the restoration walk that an
//! insertion performs, as mathematical functions on sequences.
//!
//! The walk starts at the slot of the new element. At each slot it visits it
//! exchanges the slot's element with the preferred child if the rule ranks
//! that child higher, and then moves on to the slot at half the index, until
//! it has dealt with the root. It keeps every stored element, but it does not
//! in general leave each parent ranked above its children: the storage order
//! of a heap is therefore not a priority order.

use crate::priority::Priority;
use vstd::multiset::Multiset;
use vstd::prelude::*;

verus! {

/// The slot that the walk visits after `idx`: half of `idx`, rounded down.
pub open spec fn parent_of(idx: int) -> int {
    idx / 2
}

/// The slot of the left child of `idx`.
pub open spec fn left_child_of(idx: int) -> int {
    2 * idx + 1
}

/// The slot of the right child of `idx`, next to the left one.
pub open spec fn right_child_of(idx: int) -> int {
    left_child_of(idx) + 1
}

/// Whether the slot `idx` has a child among `count` stored elements.
pub open spec fn has_children(count: int, idx: int) -> bool {
    left_child_of(idx) < count
}

/// The child of `idx` that the rule prefers: the left child when it outranks
/// the right one, the right child otherwise, the left child when it is the
/// only one, and `items.len()` when `idx` has no child.
pub open spec fn preferred_child<T, P: Priority<T>>(rule: P, items: Seq<T>, idx: int) -> int {
    if !has_children(items.len() as int, idx) {
        items.len() as int
    } else if right_child_of(idx) >= items.len() {
        left_child_of(idx)
    } else if rule.outranks(items[left_child_of(idx)], items[right_child_of(idx)]) {
        left_child_of(idx)
    } else {
        right_child_of(idx)
    }
}

/// `items` with the elements at `i` and `j` exchanged.
pub open spec fn exchanged<T>(items: Seq<T>, i: int, j: int) -> Seq<T> {
    items.update(i, items[j]).update(j, items[i])
}

/// Whether the walk exchanges the element at `idx` with its preferred child:
/// there is such a child and the rule ranks it above the element at `idx`.
pub open spec fn lifts_child<T, P: Priority<T>>(rule: P, items: Seq<T>, idx: int) -> bool {
    let child = preferred_child(rule, items, idx);
    child < items.len() && rule.outranks(items[child], items[idx])
}

/// One step of the walk, at the slot `idx`.
pub open spec fn settled<T, P: Priority<T>>(rule: P, items: Seq<T>, idx: int) -> Seq<T> {
    if lifts_child(rule, items, idx) {
        exchanged(items, preferred_child(rule, items, idx), idx)
    } else {
        items
    }
}

/// The whole walk: a step at `from`, then at its parent, and so on; the step
/// at the root is the last.
pub open spec fn restored<T, P: Priority<T>>(rule: P, items: Seq<T>, from: int) -> Seq<T>
    decreases from,
{
    if from <= 0 {
        settled(rule, items, 0)
    } else {
        restored(rule, settled(rule, items, from), parent_of(from))
    }
}

/// The storage after `value` has been inserted: `value` is appended and the
/// walk starts at its slot.
pub open spec fn inserted<T, P: Priority<T>>(rule: P, items: Seq<T>, value: T) -> Seq<T> {
    restored(rule, items.push(value), items.len() as int)
}

/// The storage after each of `values` has been inserted in turn.
pub open spec fn inserted_all<T, P: Priority<T>>(rule: P, items: Seq<T>, values: Seq<T>) -> Seq<T>
    decreases values.len(),
{
    if values.len() == 0 {
        items
    } else {
        inserted(rule, inserted_all(rule, items, values.drop_last()), values.last())
    }
}

/// Exchanging two stored elements neither adds nor loses one.
pub proof fn lemma_exchanged_keeps_elements<T>(items: Seq<T>, i: int, j: int)
    requires
        0 <= i < items.len(),
        0 <= j < items.len(),
    ensures
        exchanged(items, i, j).len() == items.len(),
        exchanged(items, i, j).to_multiset() == items.to_multiset(),
{
    broadcast use vstd::seq_lib::group_to_multiset_ensures;
    broadcast use vstd::multiset::group_multiset_axioms;

    let first = items.update(i, items[j]);
    assert(first.to_multiset() == items.to_multiset().insert(items[j]).remove(items[i]));
    assert(exchanged(items, i, j) == first.update(j, items[i]));
    assert(exchanged(items, i, j).to_multiset() =~= items.to_multiset());
}

/// A step of the walk keeps the number of elements and the elements
/// themselves, each as often as it occurred.
pub proof fn lemma_settled_keeps_elements<T, P: Priority<T>>(rule: P, items: Seq<T>, idx: int)
    requires
        0 <= idx < items.len(),
    ensures
        settled(rule, items, idx).len() == items.len(),
        settled(rule, items, idx).to_multiset() == items.to_multiset(),
{
    if lifts_child(rule, items, idx) {
        lemma_exchanged_keeps_elements(items, preferred_child(rule, items, idx), idx);
    }
}

/// The walk keeps the number of elements and the elements themselves, each
/// as often as it occurred.
pub proof fn lemma_restored_keeps_elements<T, P: Priority<T>>(rule: P, items: Seq<T>, from: int)
    requires
        0 <= from < items.len(),
    ensures
        restored(rule, items, from).len() == items.len(),
        restored(rule, items, from).to_multiset() == items.to_multiset(),
    decreases from,
{
    lemma_settled_keeps_elements(rule, items, from);
    if from > 0 {
        lemma_restored_keeps_elements(rule, settled(rule, items, from), parent_of(from));
    }
}

/// An insertion adds exactly the inserted element: the storage grows by one
/// and holds what it held before together with the new element.
pub proof fn lemma_inserted_adds_one<T, P: Priority<T>>(rule: P, items: Seq<T>, value: T)
    ensures
        inserted(rule, items, value).len() == items.len() + 1,
        inserted(rule, items, value).to_multiset() == items.to_multiset().insert(value),
{
    broadcast use vstd::seq_lib::group_to_multiset_ensures;

    lemma_restored_keeps_elements(rule, items.push(value), items.len() as int);
}

/// After any sequence of insertions the storage has grown by the number of
/// insertions and holds, beside what it held before, exactly the inserted
/// elements.
pub proof fn lemma_inserted_all_adds_all<T, P: Priority<T>>(
    rule: P,
    items: Seq<T>,
    values: Seq<T>,
)
    ensures
        inserted_all(rule, items, values).len() == items.len() + values.len(),
        inserted_all(rule, items, values).to_multiset() == items.to_multiset().add(
            values.to_multiset(),
        ),
    decreases values.len(),
{
    broadcast use vstd::seq_lib::group_to_multiset_ensures;
    broadcast use vstd::multiset::group_multiset_axioms;

    if values.len() == 0 {
        assert(values.to_multiset() =~= Multiset::<T>::empty());
        assert(items.to_multiset().add(values.to_multiset()) =~= items.to_multiset());
    } else {
        let before = inserted_all(rule, items, values.drop_last());
        lemma_inserted_all_adds_all(rule, items, values.drop_last());
        lemma_inserted_adds_one(rule, before, values.last());
        assert(values.drop_last().push(values.last()) =~= values);
        assert(values.to_multiset() =~= values.drop_last().to_multiset().insert(values.last()));
        assert(inserted_all(rule, items, values).to_multiset() =~= items.to_multiset().add(
            values.to_multiset(),
        ));
    }
}

/// Starting from an empty heap, the number of stored elements equals the
/// number of insertions.
pub proof fn lemma_length_counts_insertions<T, P: Priority<T>>(rule: P, values: Seq<T>)
    ensures
        inserted_all(rule, Seq::<T>::empty(), values).len() == values.len(),
{
    lemma_inserted_all_adds_all(rule, Seq::<T>::empty(), values);
}

} // verus!
