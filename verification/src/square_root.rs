use vstd::prelude::*;

verus! {

/// A type whose values have a square root.
pub trait SquareRoot: Sized {
    /// Whether the square root of `self` may be taken.
    spec fn square_root_req(self) -> bool;

    /// The square root of `self`.
    spec fn square_root_spec(self) -> Self;

    /// Takes the square root of `self`.
    fn square_root(self) -> (r: Self)
        requires
            self.square_root_req(),
        ensures
            r == self.square_root_spec(),
    ;
}

} // verus!
