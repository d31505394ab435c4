use vstd::prelude::*;

verus! {

/// A type whose values can be measured for similarity with values of type `Rhs`: the dot
/// product divided by the square root of the product of the magnitudes.
pub trait Similarity<Rhs = Self>: Sized {
    type Output;

    /// Whether the similarity of `self` and `rhs` may be taken.
    spec fn similarity_req(self, rhs: Rhs) -> bool;

    /// The similarity of `self` and `rhs`.
    spec fn similarity_spec(self, rhs: Rhs) -> Self::Output;

    /// Measures the similarity of `self` and `rhs`.
    fn similarity(self, rhs: Rhs) -> (r: Self::Output)
        requires
            self.similarity_req(rhs),
        ensures
            r == self.similarity_spec(rhs),
    ;
}

} // verus!
