use vstd::prelude::*;

verus! {

/// A type whose values can be normalized; a vector is scaled to unit length.
pub trait Normalize: Sized {
    /// Whether `self` may be normalized.
    spec fn normalize_req(self) -> bool;

    /// The normalized value.
    spec fn normalize_spec(self) -> Self;

    /// Normalizes `self`.
    fn normalize(self) -> (r: Self)
        requires
            self.normalize_req(),
        ensures
            r == self.normalize_spec(),
    ;
}

} // verus!
