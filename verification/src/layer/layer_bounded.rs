use crate::bounded::Bounded;
use vstd::prelude::*;

verus! {

/// Finding the least and the greatest of a sequence of partially ordered elements in one
/// scan.
pub trait LayerBounded<T: PartialOrd + Bounded> {
    /// The elements that the value holds.
    spec fn elements(&self) -> Seq<T>;

    /// The least and the greatest element: those at the indices at which the scans from the
    /// sentinels of the element type end. Each scan compares strictly, so the first of
    /// several equal elements is returned.
    ///
    /// Where the order is total and the sentinels are its ends, every element lies between
    /// the two results.
    fn min_max_element(&self) -> (r: (&T, &T))
        requires
            self.elements().len() > 0,
        ensures
            exists|i: int, j: int|
                0 <= i < self.elements().len() && 0 <= j < self.elements().len() && *r.0
                    == #[trigger] self.elements()[i] && *r.1 == #[trigger] self.elements()[j],
            crate::partial_ord::obeys_order::<T>() ==> *r.0
                == self.elements()[super::statistics::index_found(
                super::statistics::running_min(
                    self.elements(),
                    T::MAX_BOUND,
                    self.elements().len() as int,
                ),
            )],
            crate::partial_ord::obeys_order::<T>() ==> *r.1
                == self.elements()[super::statistics::index_found(
                super::statistics::running_max(
                    self.elements(),
                    T::MIN_BOUND,
                    self.elements().len() as int,
                ),
            )],
            crate::partial_ord::obeys_total_order::<T>() && crate::bounded::obeys_bounds::<T>()
                ==> forall|i: int|
                0 <= i < self.elements().len() ==> crate::partial_ord::less_eq(
                    *r.0,
                    #[trigger] self.elements()[i],
                ) && crate::partial_ord::less_eq(self.elements()[i], *r.1),
    ;
}

impl<T: PartialOrd + Bounded> LayerBounded<T> for [T] {
    open spec fn elements(&self) -> Seq<T> {
        self@
    }

    fn min_max_element(&self) -> (r: (&T, &T)) {
        let n: usize = self.len();
        proof {
            if crate::partial_ord::obeys_total_order::<T>() && crate::bounded::obeys_bounds::<T>() {
                crate::scalar_layer::lemma_min_of_max_of_are_extremes(self@);
            }
        }
        let upper = T::MAX_BOUND;
        let lower = T::MIN_BOUND;
        let mut min_found: bool = false;
        let mut max_found: bool = false;
        let mut min_index: usize = 0;
        let mut max_index: usize = 0;
        let ghost mut min_at: Option<int> = None;
        let ghost mut max_at: Option<int> = None;
        let mut i: usize = 0;
        while i < n
            invariant
                i <= n,
                n == self@.len(),
                n > 0,
                upper == T::MAX_BOUND,
                lower == T::MIN_BOUND,
                crate::partial_ord::obeys_order::<T>() ==> {
                    &&& min_at == super::statistics::running_min(self@, T::MAX_BOUND, i as int)
                    &&& max_at == super::statistics::running_max(self@, T::MIN_BOUND, i as int)
                },
                min_found == (min_at is Some),
                max_found == (max_at is Some),
                min_at is Some ==> 0 <= min_at->0 < i,
                max_at is Some ==> 0 <= max_at->0 < i,
                min_index == super::statistics::index_found(min_at),
                max_index == super::statistics::index_found(max_at),
            decreases n - i,
        {
            let less = if min_found {
                self[i] < self[min_index]
            } else {
                self[i] < upper
            };
            if less {
                min_found = true;
                min_index = i;
                proof {
                    min_at = Some(i as int);
                }
            }
            let greater = if max_found {
                self[i] > self[max_index]
            } else {
                self[i] > lower
            };
            if greater {
                max_found = true;
                max_index = i;
                proof {
                    max_at = Some(i as int);
                }
            }
            i += 1;
        }
        (&self[min_index], &self[max_index])
    }
}

} // verus!
