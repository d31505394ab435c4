use vstd::prelude::*;

verus! {

/// A type whose values can be raised to a power of type `Rhs`.
pub trait Power<Rhs = Self>: Sized {
    type Output;

    /// Whether `self` may be raised to `rhs`.
    spec fn power_req(self, rhs: Rhs) -> bool;

    /// `self` raised to `rhs`.
    spec fn power_spec(self, rhs: Rhs) -> Self::Output;

    /// Raises `self` to `rhs`.
    fn power(self, rhs: Rhs) -> (r: Self::Output)
        requires
            self.power_req(rhs),
        ensures
            r == self.power_spec(rhs),
    ;
}

} // verus!
