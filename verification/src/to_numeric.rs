use vstd::prelude::*;

verus! {

/// A type whose values can be read as numbers of type `T`, by which they are ordered
/// and rescaled.
pub trait ToNumeric<T>: Sized {
    /// A number that orders as `numeric_spec` does and may be cheaper to compute.
    spec fn numeric_proportional_spec(self) -> T;

    /// The number that `self` stands for.
    spec fn numeric_spec(self) -> T;

    /// Reads `self` as a number that orders as its numeric value does.
    fn into_numeric_proportional(self) -> (r: T)
        ensures
            r == self.numeric_proportional_spec(),
    ;

    /// Reads `self` as a number.
    fn into_numeric(self) -> (r: T)
        ensures
            r == self.numeric_spec(),
    ;
}

impl ToNumeric<u8> for u8 {
    open spec fn numeric_proportional_spec(self) -> u8 {
        self
    }

    open spec fn numeric_spec(self) -> u8 {
        self
    }

    fn into_numeric_proportional(self) -> u8 {
        self
    }

    fn into_numeric(self) -> u8 {
        self
    }
}

impl ToNumeric<u16> for u16 {
    open spec fn numeric_proportional_spec(self) -> u16 {
        self
    }

    open spec fn numeric_spec(self) -> u16 {
        self
    }

    fn into_numeric_proportional(self) -> u16 {
        self
    }

    fn into_numeric(self) -> u16 {
        self
    }
}

impl ToNumeric<u32> for u32 {
    open spec fn numeric_proportional_spec(self) -> u32 {
        self
    }

    open spec fn numeric_spec(self) -> u32 {
        self
    }

    fn into_numeric_proportional(self) -> u32 {
        self
    }

    fn into_numeric(self) -> u32 {
        self
    }
}

impl ToNumeric<u64> for u64 {
    open spec fn numeric_proportional_spec(self) -> u64 {
        self
    }

    open spec fn numeric_spec(self) -> u64 {
        self
    }

    fn into_numeric_proportional(self) -> u64 {
        self
    }

    fn into_numeric(self) -> u64 {
        self
    }
}

impl ToNumeric<i8> for i8 {
    open spec fn numeric_proportional_spec(self) -> i8 {
        self
    }

    open spec fn numeric_spec(self) -> i8 {
        self
    }

    fn into_numeric_proportional(self) -> i8 {
        self
    }

    fn into_numeric(self) -> i8 {
        self
    }
}

impl ToNumeric<i16> for i16 {
    open spec fn numeric_proportional_spec(self) -> i16 {
        self
    }

    open spec fn numeric_spec(self) -> i16 {
        self
    }

    fn into_numeric_proportional(self) -> i16 {
        self
    }

    fn into_numeric(self) -> i16 {
        self
    }
}

impl ToNumeric<i32> for i32 {
    open spec fn numeric_proportional_spec(self) -> i32 {
        self
    }

    open spec fn numeric_spec(self) -> i32 {
        self
    }

    fn into_numeric_proportional(self) -> i32 {
        self
    }

    fn into_numeric(self) -> i32 {
        self
    }
}

impl ToNumeric<i64> for i64 {
    open spec fn numeric_proportional_spec(self) -> i64 {
        self
    }

    open spec fn numeric_spec(self) -> i64 {
        self
    }

    fn into_numeric_proportional(self) -> i64 {
        self
    }

    fn into_numeric(self) -> i64 {
        self
    }
}

} // verus!
