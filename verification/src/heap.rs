//! The heap container: insertion with the restoration walk, the length
//! queries and the storage-order cursor.

use crate::priority::Ascending;
use crate::priority::Descending;
use crate::priority::Priority;
use crate::walk::exchanged;
use crate::walk::has_children;
use crate::walk::inserted;
use crate::walk::left_child_of;
use crate::walk::lemma_inserted_adds_one;
use crate::walk::parent_of;
use crate::walk::preferred_child;
use crate::walk::restored;
use crate::walk::right_child_of;
use vstd::prelude::*;

verus! {

/// A binary heap over a dense sequence, ordered by the rule `P`.
///
/// The view of a heap is its storage: the stored elements in the order of
/// their slots. Beside it the heap has a cursor, [`Heap::cursor`], and the
/// rule it was made with, [`Heap::rule`].
pub struct Heap<T, P> where T: Default + Clone, P: Priority<T> {
    count: usize,
    items: Vec<T>,
    comparator: P,
    iter_idx: usize,
}

impl<T, P> View for Heap<T, P> where T: Default + Clone, P: Priority<T> {
    type V = Seq<T>;

    closed spec fn view(&self) -> Seq<T> {
        self.items@
    }
}

/// Exchanges the elements of `items` at `lower` and `upper`.
fn exchange<T>(items: &mut Vec<T>, lower: usize, upper: usize)
    requires
        lower < upper < old(items)@.len(),
    ensures
        final(items)@ == exchanged(old(items)@, upper as int, lower as int),
{
    let slots = items.as_mut_slice();
    let (front, back) = slots.split_at_mut(upper);
    core::mem::swap(&mut front[lower], &mut back[0]);
    assert(final(items)@ =~= exchanged(old(items)@, upper as int, lower as int));
}

impl<T, P> Heap<T, P> where T: Default + Clone, P: Priority<T> {
    /// The rule that orders this heap, fixed when the heap was made.
    pub closed spec fn rule(&self) -> P {
        self.comparator
    }

    /// The number of elements that the cursor has handed out.
    pub closed spec fn cursor(&self) -> nat {
        self.iter_idx as nat
    }

    /// The heap's invariant: the count of elements is the length of the
    /// storage, the cursor has not passed the end, and the rule is a
    /// relation.
    pub closed spec fn wf(&self) -> bool {
        &&& self.count == self.items@.len()
        &&& self.iter_idx <= self.count
        &&& self.comparator.is_relation()
    }

    /// The number of stored elements.
    pub open spec fn spec_len(&self) -> usize {
        self@.len() as usize
    }

    /// What follows from the invariant for the public model.
    pub proof fn lemma_wf(&self)
        requires
            self.wf(),
        ensures
            self.cursor() <= self@.len() <= usize::MAX,
            self.rule().is_relation(),
    {
    }

    /// Makes an empty heap ordered by `comparator`.
    pub fn new(comparator: P) -> (heap: Self)
        requires
            comparator.is_relation(),
        ensures
            heap.wf(),
            heap@ == Seq::<T>::empty(),
            heap.cursor() == 0,
            heap.rule() == comparator,
    {
        Self { count: 0, items: vec![], comparator, iter_idx: 0 }
    }

    /// The number of stored elements.
    #[verifier::when_used_as_spec(spec_len)]
    pub fn len(&self) -> (count: usize)
        requires
            self.wf(),
        ensures
            count == self@.len(),
            count == self.spec_len(),
    {
        self.count
    }

    /// Whether the heap holds no element.
    pub fn is_empty(&self) -> (empty: bool)
        requires
            self.wf(),
        ensures
            empty <==> self@.len() == 0,
            empty <==> self.len() == 0,
    {
        self.len() == 0
    }

    /// Inserts `value`: appends it to the storage and walks from its slot to
    /// the root, at each visited slot lifting the preferred child when the
    /// rule ranks it above the slot's element.
    pub fn add(&mut self, value: T)
        requires
            old(self).wf(),
        ensures
            final(self).wf(),
            final(self)@ == inserted(old(self).rule(), old(self)@, value),
            final(self)@.len() == old(self)@.len() + 1,
            final(self)@.to_multiset() == old(self)@.to_multiset().insert(value),
            final(self).cursor() == old(self).cursor(),
            final(self).rule() == old(self).rule(),
    {
        let ghost target = inserted(old(self).rule(), old(self)@, value);
        proof {
            lemma_inserted_adds_one(old(self).rule(), old(self)@, value);
        }
        self.items.push(value);
        // the storage's length fits in `usize`, so the count can follow it
        assert(self.items.len() == self.count + 1);
        self.count += 1;

        let mut cur: usize = self.count - 1;
        loop
            invariant_except_break
                restored(self.rule(), self@, cur as int) == target,
            invariant
                self.wf(),
                cur < self.count,
                self.rule() == old(self).rule(),
                self.cursor() == old(self).cursor(),
            ensures
                self@ == target,
            decreases cur,
        {
            let child: usize = self.smallest_child_idx(cur);
            if child < self.count && self.comparator.higher_priority(
                &self.items[child],
                &self.items[cur],
            ) {
                exchange(&mut self.items, cur, child);
            }
            if cur == 0 {
                break ;
            }
            cur = self.parent_idx(cur);
        }
    }

    /// The slot that the walk visits after `idx`.
    pub fn parent_idx(&self, idx: usize) -> (parent: usize)
        ensures
            parent == parent_of(idx as int),
    {
        idx / 2
    }

    /// Whether the slot `idx` has a child among the stored elements.
    pub fn children_present(&self, idx: usize) -> (present: bool)
        requires
            self.wf(),
        ensures
            present == has_children(self@.len() as int, idx as int),
    {
        idx < self.count / 2
    }

    /// The slot of the left child of `idx`.
    pub fn left_child_idx(&self, idx: usize) -> (left: usize)
        requires
            left_child_of(idx as int) <= usize::MAX,
        ensures
            left == left_child_of(idx as int),
    {
        idx * 2 + 1
    }

    /// The slot of the right child of `idx`.
    pub fn right_child_idx(&self, idx: usize) -> (right: usize)
        requires
            right_child_of(idx as int) <= usize::MAX,
        ensures
            right == right_child_of(idx as int),
    {
        self.left_child_idx(idx) + 1
    }

    /// The child of `idx` that the rule prefers, or the number of stored
    /// elements when `idx` has no child.
    pub fn smallest_child_idx(&self, idx: usize) -> (child: usize)
        requires
            self.wf(),
        ensures
            child == preferred_child(self.rule(), self@, idx as int),
    {
        if !self.children_present(idx) {
            return self.count;
        }
        let left: usize = self.left_child_idx(idx);
        let right: usize = self.right_child_idx(idx);

        if right >= self.count {
            return left;
        }
        if self.comparator.higher_priority(&self.items[left], &self.items[right]) {
            return left;
        }
        right
    }

    /// Hands out a copy of the element under the cursor and moves the cursor
    /// on, or signals the end once every stored element has been handed out.
    /// The elements come in storage order.
    pub fn next(&mut self) -> (item: Option<T>)
        requires
            old(self).wf(),
        ensures
            final(self).wf(),
            final(self)@ == old(self)@,
            final(self).rule() == old(self).rule(),
            old(self)@.len() == 0 ==> item is None,
            old(self).cursor() >= old(self)@.len() ==> {
                &&& item is None
                &&& final(self).cursor() == old(self).cursor()
            },
            old(self).cursor() < old(self)@.len() ==> {
                &&& item is Some
                &&& cloned(old(self)@[old(self).cursor() as int], item->0)
                &&& final(self).cursor() == old(self).cursor() + 1
            },
    {
        if self.iter_idx >= self.count {
            return None;
        }
        let result = Some(self.items[self.iter_idx].clone());
        self.iter_idx += 1;

        result
    }
}

/// Asking a heap for its length twice, with no insertion in between, gives
/// the same answer both times.
pub proof fn lemma_len_repeats<T, P>(heap: &Heap<T, P>, first: usize, second: usize) where
    T: Default + Clone,
    P: Priority<T>,

    requires
        heap.wf(),
        call_ensures(Heap::<T, P>::len, (heap,), first),
        call_ensures(Heap::<T, P>::len, (heap,), second),
    ensures
        first == second,
{
}

/// Asking a heap twice whether it is empty, with no insertion in between,
/// gives the same answer both times.
pub proof fn lemma_is_empty_repeats<T, P>(heap: &Heap<T, P>, first: bool, second: bool) where
    T: Default + Clone,
    P: Priority<T>,

    requires
        heap.wf(),
        call_ensures(Heap::<T, P>::is_empty, (heap,), first),
        call_ensures(Heap::<T, P>::is_empty, (heap,), second),
    ensures
        first == second,
{
}

/// A heap answers that it is empty exactly when it answers that its length
/// is zero.
pub proof fn lemma_empty_iff_no_length<T, P>(heap: &Heap<T, P>, empty: bool, count: usize) where
    T: Default + Clone,
    P: Priority<T>,

    requires
        heap.wf(),
        call_ensures(Heap::<T, P>::is_empty, (heap,), empty),
        call_ensures(Heap::<T, P>::len, (heap,), count),
    ensures
        empty <==> count == 0,
{
}

impl<T> Heap<T, Ascending> where T: Default + Ord + Clone {
    /// Makes an empty heap that ranks the lesser of two elements higher.
    pub fn new_min() -> (heap: Self)
        requires
            Priority::<T>::is_relation(&Ascending),
        ensures
            heap.wf(),
            heap@ == Seq::<T>::empty(),
            heap.cursor() == 0,
            heap.rule() == Ascending,
    {
        Self::new(Ascending)
    }
}

impl<T> Heap<T, Descending> where T: Default + Ord + Clone {
    /// Makes an empty heap that ranks the greater of two elements higher.
    pub fn new_max() -> (heap: Self)
        requires
            Priority::<T>::is_relation(&Descending),
        ensures
            heap.wf(),
            heap@ == Seq::<T>::empty(),
            heap.cursor() == 0,
            heap.rule() == Descending,
    {
        Self::new(Descending)
    }
}

/// Maker of heaps that rank the lesser of two elements higher.
pub struct MinHeap;

impl MinHeap {
    /// Makes an empty heap that ranks the lesser of two elements higher.
    pub fn new<T>() -> (heap: Heap<T, Ascending>) where T: Default + Ord + Clone
        requires
            Priority::<T>::is_relation(&Ascending),
        ensures
            heap.wf(),
            heap@ == Seq::<T>::empty(),
            heap.cursor() == 0,
            heap.rule() == Ascending,
    {
        Heap::new(Ascending)
    }
}

/// Maker of heaps that rank the greater of two elements higher.
pub struct MaxHeap;

impl MaxHeap {
    /// Makes an empty heap that ranks the greater of two elements higher.
    pub fn new<T>() -> (heap: Heap<T, Descending>) where T: Default + Ord + Clone
        requires
            Priority::<T>::is_relation(&Descending),
        ensures
            heap.wf(),
            heap@ == Seq::<T>::empty(),
            heap.cursor() == 0,
            heap.rule() == Descending,
    {
        Heap::new(Descending)
    }
}

} // verus!
