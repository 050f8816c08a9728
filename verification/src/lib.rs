//! A binary heap container with a configurable ordering rule.
//!
//! The heap keeps its elements in a dense sequence that is read as a binary
//! tree: the children of the slot at index `i` sit at `2i + 1` and `2i + 2`.
//! An insertion appends the new element and then walks from its slot towards
//! the root, at each visited slot lifting the preferred child when the rule
//! ranks it above the slot's element. Elements are handed out in storage
//! order by a cursor that lives in the heap itself.
//!
//! * [`priority`] holds the ordering rules: the natural ascending and
//!   descending orders and any total, single-valued closure.
//! * [`walk`] is the mathematical model of the tree layout and of the
//!   restoration walk, with the facts proved of it.
//! * [`heap`] is the container, whose contracts are stated over that model.

pub mod heap;
pub mod priority;
pub mod walk;

pub use heap::Heap;
pub use heap::MaxHeap;
pub use heap::MinHeap;
pub use priority::Ascending;
pub use priority::Descending;
pub use priority::Priority;
