use crate::bounded::Bounded;
use vstd::prelude::*;

verus! {

/// Finding the least and the greatest of a sequence of ordered elements.
///
/// Each scan starts from a sentinel of the element type and compares strictly, so the first
/// of several equal elements is found. Index 0 is returned where no element took the
/// sentinel's place.
pub trait LayerBounded<T: Ord + Bounded> {
    /// The elements that the value holds.
    spec fn elements(&self) -> Seq<T>;

    /// The index of the least element.
    fn min_index(&self) -> (r: usize)
        ensures
            r < self.elements().len() || r == 0,
            crate::partial_ord::obeys_order::<T>() ==> r == crate::layer::statistics::index_found(
                crate::layer::statistics::running_min(
                    self.elements(),
                    T::MAX_BOUND,
                    self.elements().len() as int,
                ),
            ),
    ;

    /// The index of the greatest element.
    fn max_index(&self) -> (r: usize)
        ensures
            r < self.elements().len() || r == 0,
            crate::partial_ord::obeys_order::<T>() ==> r == crate::layer::statistics::index_found(
                crate::layer::statistics::running_max(
                    self.elements(),
                    T::MIN_BOUND,
                    self.elements().len() as int,
                ),
            ),
    ;

    /// The element at `min_index`.
    fn min_element(&self) -> (r: &T)
        requires
            self.elements().len() > 0,
        ensures
            exists|i: int| 0 <= i < self.elements().len() && *r == #[trigger] self.elements()[i],
            crate::partial_ord::obeys_order::<T>() ==> *r
                == self.elements()[crate::layer::statistics::index_found(
                crate::layer::statistics::running_min(
                    self.elements(),
                    T::MAX_BOUND,
                    self.elements().len() as int,
                ),
            )],
    ;

    /// The element at `max_index`.
    fn max_element(&self) -> (r: &T)
        requires
            self.elements().len() > 0,
        ensures
            exists|i: int| 0 <= i < self.elements().len() && *r == #[trigger] self.elements()[i],
            crate::partial_ord::obeys_order::<T>() ==> *r
                == self.elements()[crate::layer::statistics::index_found(
                crate::layer::statistics::running_max(
                    self.elements(),
                    T::MIN_BOUND,
                    self.elements().len() as int,
                ),
            )],
    ;
}

impl<T: Ord + Bounded> LayerBounded<T> for [T] {
    open spec fn elements(&self) -> Seq<T> {
        self@
    }

    fn min_index(&self) -> (r: usize) {
        let n: usize = self.len();
        let sentinel = T::MAX_BOUND;
        let mut found: bool = false;
        let mut min_index: usize = 0;
        let ghost mut min_at: Option<int> = None;
        let mut i: usize = 0;
        while i < n
            invariant
                i <= n,
                n == self@.len(),
                sentinel == T::MAX_BOUND,
                crate::partial_ord::obeys_order::<T>() ==> min_at
                    == crate::layer::statistics::running_min(self@, T::MAX_BOUND, i as int),
                found == (min_at is Some),
                min_at is Some ==> 0 <= min_at->0 < i,
                min_index == crate::layer::statistics::index_found(min_at),
            decreases n - i,
        {
            let less = if found {
                self[i] < self[min_index]
            } else {
                self[i] < sentinel
            };
            if less {
                found = true;
                min_index = i;
                proof {
                    min_at = Some(i as int);
                }
            }
            i += 1;
        }
        min_index
    }

    fn max_index(&self) -> (r: usize) {
        let n: usize = self.len();
        let sentinel = T::MIN_BOUND;
        let mut found: bool = false;
        let mut max_index: usize = 0;
        let ghost mut max_at: Option<int> = None;
        let mut i: usize = 0;
        while i < n
            invariant
                i <= n,
                n == self@.len(),
                sentinel == T::MIN_BOUND,
                crate::partial_ord::obeys_order::<T>() ==> max_at
                    == crate::layer::statistics::running_max(self@, T::MIN_BOUND, i as int),
                found == (max_at is Some),
                max_at is Some ==> 0 <= max_at->0 < i,
                max_index == crate::layer::statistics::index_found(max_at),
            decreases n - i,
        {
            let greater = if found {
                self[i] > self[max_index]
            } else {
                self[i] > sentinel
            };
            if greater {
                found = true;
                max_index = i;
                proof {
                    max_at = Some(i as int);
                }
            }
            i += 1;
        }
        max_index
    }

    fn min_element(&self) -> (r: &T) {
        &self[self.min_index()]
    }

    fn max_element(&self) -> (r: &T) {
        &self[self.max_index()]
    }
}

} // verus!
