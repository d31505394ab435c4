use vstd::prelude::*;

verus! {

/// Cloning into a sequence of elements by a mapping.
pub trait LayerClone<T: Clone> {
    /// The elements that the value holds.
    spec fn elements(&self) -> Seq<T>;

    /// `self[i]` becomes a clone of `from[mapping[i]]` for every index `i` of `mapping`.
    /// The other elements of `self` are left as they were.
    fn clone_from_slice_by_mapping(&mut self, mapping: &[usize], from: &Self)
        requires
            mapping@.len() <= old(self).elements().len(),
            forall|i: int| 0 <= i < mapping@.len() ==>
                #[trigger] mapping@[i] < from.elements().len(),
        ensures
            final(self).elements().len() == old(self).elements().len(),
            forall|i: int|
                0 <= i < mapping@.len() ==> cloned(
                    from.elements()[mapping@[i] as int],
                    #[trigger] final(self).elements()[i],
                ),
            forall|i: int|
                mapping@.len() <= i < old(self).elements().len() ==>
                    #[trigger] final(self).elements()[i]
                    == old(self).elements()[i],
    ;
}

impl<T: Clone> LayerClone<T> for [T] {
    open spec fn elements(&self) -> Seq<T> {
        self@
    }

    fn clone_from_slice_by_mapping(&mut self, mapping: &[usize], from: &Self) {
        let n: usize = mapping.len();
        let mut i: usize = 0;
        while i < n
            invariant
                i <= n,
                n == mapping@.len(),
                self@.len() == old(self)@.len(),
                n <= self@.len(),
                forall|j: int| 0 <= j < n ==> #[trigger] mapping@[j] < from@.len(),
                forall|j: int| 0 <= j < i ==>
                    cloned(from@[mapping@[j] as int], #[trigger] self@[j]),
                forall|j: int| i <= j < self@.len() ==> #[trigger] self@[j] == old(self)@[j],
            decreases n - i,
        {
            self[i] = from[mapping[i]].clone();
            i += 1;
        }
    }
}

} // verus!
