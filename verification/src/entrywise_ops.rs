use vstd::prelude::*;

verus! {

/// The sum taken independently in each component of a vector-like value.
pub trait EntrywiseAdd<Rhs = Self>: Sized {
    type Output;

    /// Whether the entrywise sum of `self` and `rhs` may be taken.
    spec fn entrywise_add_req(self, rhs: Rhs) -> bool;

    /// The entrywise sum of `self` and `rhs`.
    spec fn entrywise_add_spec(self, rhs: Rhs) -> Self::Output;

    /// Adds `rhs` to `self`, entry by entry.
    fn entrywise_add(self, rhs: Rhs) -> (r: Self::Output)
        requires
            self.entrywise_add_req(rhs),
        ensures
            r == self.entrywise_add_spec(rhs),
    ;
}

/// The difference taken independently in each component of a vector-like value.
pub trait EntrywiseSub<Rhs = Self>: Sized {
    type Output;

    /// Whether the entrywise difference of `self` and `rhs` may be taken.
    spec fn entrywise_sub_req(self, rhs: Rhs) -> bool;

    /// The entrywise difference of `self` and `rhs`.
    spec fn entrywise_sub_spec(self, rhs: Rhs) -> Self::Output;

    /// Subtracts `rhs` from `self`, entry by entry.
    fn entrywise_sub(self, rhs: Rhs) -> (r: Self::Output)
        requires
            self.entrywise_sub_req(rhs),
        ensures
            r == self.entrywise_sub_spec(rhs),
    ;
}

/// The product taken independently in each component of a vector-like value.
pub trait EntrywiseMul<Rhs = Self>: Sized {
    type Output;

    /// Whether the entrywise product of `self` and `rhs` may be taken.
    spec fn entrywise_mul_req(self, rhs: Rhs) -> bool;

    /// The entrywise product of `self` and `rhs`.
    spec fn entrywise_mul_spec(self, rhs: Rhs) -> Self::Output;

    /// Multiplies `self` by `rhs`, entry by entry.
    fn entrywise_mul(self, rhs: Rhs) -> (r: Self::Output)
        requires
            self.entrywise_mul_req(rhs),
        ensures
            r == self.entrywise_mul_spec(rhs),
    ;
}

/// The quotient taken independently in each component of a vector-like value.
pub trait EntrywiseDiv<Rhs = Self>: Sized {
    type Output;

    /// Whether the entrywise quotient of `self` and `rhs` may be taken.
    spec fn entrywise_div_req(self, rhs: Rhs) -> bool;

    /// The entrywise quotient of `self` and `rhs`.
    spec fn entrywise_div_spec(self, rhs: Rhs) -> Self::Output;

    /// Divides `self` by `rhs`, entry by entry.
    fn entrywise_div(self, rhs: Rhs) -> (r: Self::Output)
        requires
            self.entrywise_div_req(rhs),
        ensures
            r == self.entrywise_div_spec(rhs),
    ;
}

/// The power taken independently in each component of a vector-like value.
pub trait EntrywisePow<Rhs = Self>: Sized {
    type Output;

    /// Whether the entrywise power of `self` and `rhs` may be taken.
    spec fn entrywise_pow_req(self, rhs: Rhs) -> bool;

    /// The entrywise power of `self` and `rhs`.
    spec fn entrywise_pow_spec(self, rhs: Rhs) -> Self::Output;

    /// Raises `self` to `rhs`, entry by entry.
    fn entrywise_pow(self, rhs: Rhs) -> (r: Self::Output)
        requires
            self.entrywise_pow_req(rhs),
        ensures
            r == self.entrywise_pow_spec(rhs),
    ;
}

/// The square root taken independently in each component of a vector-like value.
pub trait EntrywiseSqrt: Sized {
    type Output;

    /// Whether the entrywise square root of `self` may be taken.
    spec fn entrywise_sqrt_req(self) -> bool;

    /// The entrywise square root of `self`.
    spec fn entrywise_sqrt_spec(self) -> Self::Output;

    /// Takes the square root of each entry of `self`.
    fn entrywise_sqrt(self) -> (r: Self::Output)
        requires
            self.entrywise_sqrt_req(),
        ensures
            r == self.entrywise_sqrt_spec(),
    ;
}

/// The inverse taken independently in each component of a vector-like value.
pub trait EntrywiseInv: Sized {
    type Output;

    /// Whether the entrywise inverse of `self` may be taken.
    spec fn entrywise_inv_req(self) -> bool;

    /// The entrywise inverse of `self`.
    spec fn entrywise_inv_spec(self) -> Self::Output;

    /// Inverts each entry of `self`.
    fn entrywise_inv(self) -> (r: Self::Output)
        requires
            self.entrywise_inv_req(),
        ensures
            r == self.entrywise_inv_spec(),
    ;
}

/// The natural exponential taken independently in each component of a vector-like value.
pub trait EntrywiseEX: Sized {
    type Output;

    /// Whether the entrywise natural exponential of `self` may be taken.
    spec fn entrywise_e_x_req(self) -> bool;

    /// The entrywise natural exponential of `self`.
    spec fn entrywise_e_x_spec(self) -> Self::Output;

    /// Raises `e` to each entry of `self`.
    fn entrywise_e_x(self) -> (r: Self::Output)
        requires
            self.entrywise_e_x_req(),
        ensures
            r == self.entrywise_e_x_spec(),
    ;
}

} // verus!
