use vstd::prelude::*;

verus! {

/// A type that names the additive identity of `T`.
pub trait Zero<T> {
    /// The additive identity.
    spec fn zero_spec() -> T;

    /// Returns the additive identity.
    fn zero() -> (r: T)
        ensures
            r == Self::zero_spec(),
    ;
}

impl Zero<bool> for bool {
    open spec fn zero_spec() -> bool {
        false
    }

    fn zero() -> bool {
        false
    }
}

impl Zero<usize> for usize {
    open spec fn zero_spec() -> usize {
        0
    }

    fn zero() -> usize {
        0
    }
}

impl Zero<isize> for isize {
    open spec fn zero_spec() -> isize {
        0
    }

    fn zero() -> isize {
        0
    }
}

impl Zero<u8> for u8 {
    open spec fn zero_spec() -> u8 {
        0
    }

    fn zero() -> u8 {
        0
    }
}

impl Zero<i8> for i8 {
    open spec fn zero_spec() -> i8 {
        0
    }

    fn zero() -> i8 {
        0
    }
}

impl Zero<u16> for u16 {
    open spec fn zero_spec() -> u16 {
        0
    }

    fn zero() -> u16 {
        0
    }
}

impl Zero<i16> for i16 {
    open spec fn zero_spec() -> i16 {
        0
    }

    fn zero() -> i16 {
        0
    }
}

impl Zero<u32> for u32 {
    open spec fn zero_spec() -> u32 {
        0
    }

    fn zero() -> u32 {
        0
    }
}

impl Zero<i32> for i32 {
    open spec fn zero_spec() -> i32 {
        0
    }

    fn zero() -> i32 {
        0
    }
}

impl Zero<u64> for u64 {
    open spec fn zero_spec() -> u64 {
        0
    }

    fn zero() -> u64 {
        0
    }
}

impl Zero<i64> for i64 {
    open spec fn zero_spec() -> i64 {
        0
    }

    fn zero() -> i64 {
        0
    }
}

} // verus!
