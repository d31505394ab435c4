use vstd::prelude::*;

verus! {

/// A type whose values can be taken as the exponent of the natural exponential.
pub trait EX: Sized {
    type Output;

    /// Whether `e` may be raised to `self`.
    spec fn e_x_req(self) -> bool;

    /// `e` raised to `self`.
    spec fn e_x_spec(self) -> Self::Output;

    /// Raises `e` to `self`.
    fn e_x(self) -> (r: Self::Output)
        requires
            self.e_x_req(),
        ensures
            r == self.e_x_spec(),
    ;
}

} // verus!
