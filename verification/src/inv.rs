use vstd::prelude::*;

verus! {

/// A type whose values can be inverted (`1 / x` and its generalisations).
pub trait Inv: Sized {
    /// Whether `self` may be inverted.
    spec fn inv_req(self) -> bool;

    /// The inverse of `self`.
    spec fn inv_spec(self) -> Self;

    /// Inverts `self`.
    fn inv(self) -> (r: Self)
        requires
            self.inv_req(),
        ensures
            r == self.inv_spec(),
    ;
}

} // verus!
