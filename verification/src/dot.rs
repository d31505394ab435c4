use vstd::prelude::*;

verus! {

/// A type whose values have a dot product with values of type `Rhs`.
pub trait Dot<Rhs = Self>: Sized {
    type Output;

    /// Whether the dot product of `self` and `rhs` may be taken.
    spec fn dot_req(self, rhs: Rhs) -> bool;

    /// The dot product of `self` and `rhs`.
    spec fn dot_spec(self, rhs: Rhs) -> Self::Output;

    /// Takes the dot product of `self` and `rhs`.
    fn dot(self, rhs: Rhs) -> (r: Self::Output)
        requires
            self.dot_req(rhs),
        ensures
            r == self.dot_spec(rhs),
    ;
}

} // verus!
