//! Ordering rules: which of two elements belongs closer to the root.

use vstd::prelude::*;
use vstd::std_specs::cmp::PartialOrdIs;
use vstd::std_specs::cmp::PartialOrdSpec;

verus! {

/// A rule that ranks one element above another.
///
/// The rule is fixed for the lifetime of the heap that holds it. Its answers
/// are modelled by [`Priority::outranks`], a relation on pairs of elements.
pub trait Priority<T> {
    /// Whether the rule can be asked about every pair of elements and gives
    /// one answer for each, so that it is a relation in the mathematical
    /// sense.
    spec fn is_relation(&self) -> bool;

    /// Whether `a` should sit closer to the root than `b`.
    spec fn outranks(&self, a: T, b: T) -> bool;

    /// Decides whether `a` should sit closer to the root than `b`.
    fn higher_priority(&self, a: &T, b: &T) -> (verdict: bool)
        requires
            self.is_relation(),
        ensures
            verdict == self.outranks(*a, *b),
    ;
}

/// The natural order with the least element first: `a` outranks `b` when
/// `a < b`.
#[derive(Clone, Copy, Debug, Default)]
pub struct Ascending;

/// The natural order with the greatest element first: `a` outranks `b` when
/// `a > b`.
#[derive(Clone, Copy, Debug, Default)]
pub struct Descending;

impl<T: Ord> Priority<T> for Ascending {
    open spec fn is_relation(&self) -> bool {
        T::obeys_partial_cmp_spec()
    }

    open spec fn outranks(&self, a: T, b: T) -> bool {
        a.is_lt(&b)
    }

    fn higher_priority(&self, a: &T, b: &T) -> (verdict: bool) {
        a < b
    }
}

impl<T: Ord> Priority<T> for Descending {
    open spec fn is_relation(&self) -> bool {
        T::obeys_partial_cmp_spec()
    }

    open spec fn outranks(&self, a: T, b: T) -> bool {
        a.is_gt(&b)
    }

    fn higher_priority(&self, a: &T, b: &T) -> (verdict: bool) {
        a > b
    }
}

/// Whether `test` may be called on every pair of elements.
pub open spec fn is_total<T, F: Fn(&T, &T) -> bool>(test: F) -> bool {
    forall|a: &T, b: &T| call_requires(test, (a, b))
}

/// Whether `test` never has both answers open for one pair of elements.
pub open spec fn is_single_valued<T, F: Fn(&T, &T) -> bool>(test: F) -> bool {
    forall|a: &T, b: &T|
        !(call_ensures(test, (a, b), true) && call_ensures(test, (a, b), false))
}

/// Any binary predicate is a rule: `a` outranks `b` when `true` is an answer
/// that the predicate can give on `(a, b)`. For a total predicate with one
/// answer per pair this is the answer that a call returns.
impl<T, F: Fn(&T, &T) -> bool> Priority<T> for F {
    open spec fn is_relation(&self) -> bool {
        is_total::<T, F>(*self) && is_single_valued::<T, F>(*self)
    }

    open spec fn outranks(&self, a: T, b: T) -> bool {
        call_ensures(*self, (&a, &b), true)
    }

    fn higher_priority(&self, a: &T, b: &T) -> (verdict: bool) {
        self(a, b)
    }
}

/// A total predicate with one answer per pair is a relation, and it ranks
/// `a` above `b` exactly when `true` is its answer on `(a, b)`.
pub proof fn lemma_predicate_is_rule<T, F: Fn(&T, &T) -> bool>(test: F)
    requires
        is_total::<T, F>(test),
        is_single_valued::<T, F>(test),
    ensures
        Priority::<T>::is_relation(&test),
        forall|a: T, b: T| #[trigger]
            Priority::<T>::outranks(&test, a, b) == call_ensures(test, (&a, &b), true),
{
}

} // verus!
