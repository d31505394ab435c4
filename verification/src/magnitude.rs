use vstd::prelude::*;

verus! {

/// A type whose values have a magnitude.
pub trait Magnitude {
    type Output;

    /// A value that orders as the magnitude does and may be cheaper to compute, such as
    /// the squared length of a vector.
    spec fn magnitude_proportional_spec(&self) -> Self::Output;

    /// The magnitude.
    spec fn magnitude_spec(&self) -> Self::Output;

    /// Computes a value that orders as the magnitude does.
    fn magnitude_proportional(&self) -> (r: Self::Output)
        ensures
            r == self.magnitude_proportional_spec(),
    ;

    /// Computes the magnitude.
    fn magnitude(&self) -> (r: Self::Output)
        ensures
            r == self.magnitude_spec(),
    ;
}

impl Magnitude for u8 {
    type Output = u8;

    open spec fn magnitude_proportional_spec(&self) -> u8 {
        *self
    }

    open spec fn magnitude_spec(&self) -> u8 {
        *self
    }

    fn magnitude_proportional(&self) -> u8 {
        *self
    }

    fn magnitude(&self) -> u8 {
        *self
    }
}

impl Magnitude for u16 {
    type Output = u16;

    open spec fn magnitude_proportional_spec(&self) -> u16 {
        *self
    }

    open spec fn magnitude_spec(&self) -> u16 {
        *self
    }

    fn magnitude_proportional(&self) -> u16 {
        *self
    }

    fn magnitude(&self) -> u16 {
        *self
    }
}

impl Magnitude for u32 {
    type Output = u32;

    open spec fn magnitude_proportional_spec(&self) -> u32 {
        *self
    }

    open spec fn magnitude_spec(&self) -> u32 {
        *self
    }

    fn magnitude_proportional(&self) -> u32 {
        *self
    }

    fn magnitude(&self) -> u32 {
        *self
    }
}

impl Magnitude for u64 {
    type Output = u64;

    open spec fn magnitude_proportional_spec(&self) -> u64 {
        *self
    }

    open spec fn magnitude_spec(&self) -> u64 {
        *self
    }

    fn magnitude_proportional(&self) -> u64 {
        *self
    }

    fn magnitude(&self) -> u64 {
        *self
    }
}

} // verus!
