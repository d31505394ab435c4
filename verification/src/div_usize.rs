use vstd::prelude::*;

verus! {

/// A type whose values can be divided by a count.
pub trait DivUsize: Sized {
    /// Whether `self` may be divided by `rhs`.
    spec fn div_usize_req(self, rhs: usize) -> bool;

    /// `self` divided by `rhs`.
    spec fn div_usize_spec(self, rhs: usize) -> Self;

    /// Divides `self` by `rhs`.
    fn div_usize(self, rhs: usize) -> (r: Self)
        requires
            self.div_usize_req(rhs),
        ensures
            r == self.div_usize_spec(rhs),
    ;
}

} // verus!
