use binary_heap::Heap;
use binary_heap::MaxHeap;
use binary_heap::MinHeap;

#[test]
fn test_empty_heap() {
    let mut heap = MaxHeap::new::<i32>();
    assert_eq!(heap.next(), None);
}

#[test]
fn test_min_heap() {
    let mut heap = MinHeap::new();
    heap.add(4);
    heap.add(2);
    heap.add(9);
    heap.add(11);
    assert_eq!(heap.len(), 4);
    assert_eq!(heap.next(), Some(2));
    assert_eq!(heap.next(), Some(4));
    assert_eq!(heap.next(), Some(9));
    heap.add(1);
    assert_eq!(heap.next(), Some(11));
}

#[test]
fn test_max_heap() {
    let mut heap = MaxHeap::new();
    heap.add(4);
    heap.add(2);
    heap.add(9);
    heap.add(11);
    assert_eq!(heap.len(), 4);
    assert_eq!(heap.next(), Some(11));
    assert_eq!(heap.next(), Some(9));
    assert_eq!(heap.next(), Some(4));
    heap.add(1);
    assert_eq!(heap.next(), Some(2));
}

#[test]
fn empty_min_heap_ends_at_once() {
    let mut heap = MinHeap::new::<u64>();
    assert_eq!(heap.next(), None);
    assert_eq!(heap.next(), None);
    assert_eq!(heap.len(), 0);
}

#[test]
fn end_is_signalled_after_the_last_element() {
    let mut heap = MinHeap::new();
    heap.add(3);
    heap.add(1);
    assert_eq!(heap.next(), Some(1));
    assert_eq!(heap.next(), Some(3));
    assert_eq!(heap.next(), None);
    assert_eq!(heap.next(), None);
}

#[test]
fn cursor_goes_on_after_a_late_insertion() {
    let mut heap = MinHeap::new();
    heap.add(5);
    assert_eq!(heap.next(), Some(5));
    assert_eq!(heap.next(), None);
    heap.add(7);
    assert_eq!(heap.next(), Some(7));
    assert_eq!(heap.next(), None);
}

#[test]
fn traversal_keeps_the_elements_stored() {
    let mut heap = MaxHeap::new();
    heap.add(1);
    heap.add(2);
    assert_eq!(heap.next(), Some(2));
    assert_eq!(heap.next(), Some(1));
    assert_eq!(heap.len(), 2);
    assert!(!heap.is_empty());
}

#[test]
fn handed_out_elements_are_copies() {
    let mut heap = MinHeap::new();
    heap.add(String::from("pear"));
    heap.add(String::from("apple"));
    let mut first = heap.next().unwrap();
    first.push_str(" pie");
    assert_eq!(first, "apple pie");
    assert_eq!(heap.next(), Some(String::from("pear")));
    assert_eq!(heap.len(), 2);
}

#[test]
fn new_min_and_new_max_order_as_the_makers_do() {
    let mut least_first = Heap::new_min();
    let mut greatest_first = Heap::new_max();
    for value in [4, 2, 9, 11] {
        least_first.add(value);
        greatest_first.add(value);
    }
    assert_eq!(least_first.next(), Some(2));
    assert_eq!(greatest_first.next(), Some(11));
}
