//! Equality tests, as functions that can be handed to a mapping.

use vstd::prelude::*;
use vstd::std_specs::cmp::PartialEqSpec;

verus! {

/// Whether `==` on `T` agrees with the equality that contracts speak of.
pub open spec fn obeys_equality<T: PartialEq>() -> bool {
    T::obeys_eq_spec()
}

/// `a == b`, as the type defines it.
pub open spec fn equal<T: PartialEq>(a: T, b: T) -> bool {
    a.eq_spec(&b)
}

/// Whether `r` is an answer that `a == b` may give. Where equality obeys its model, it is
/// `equal(a, b)`.
pub open spec fn eq_returns<T: PartialEq>(a: T, b: T, r: bool) -> bool {
    call_ensures(<T as PartialEq>::eq, (&a, &b), r)
}

/// Whether `r` is an answer that `a != b` may give.
pub open spec fn ne_returns<T: PartialEq>(a: T, b: T, r: bool) -> bool {
    call_ensures(<T as PartialEq>::ne, (&a, &b), r)
}

/// `a == b`
pub fn eq<T: PartialEq>(a: T, b: T) -> (r: bool)
    ensures
        eq_returns(a, b, r),
        obeys_equality::<T>() ==> r == equal(a, b),
{
    a == b
}

/// `a != b`
pub fn ne<T: PartialEq>(a: T, b: T) -> (r: bool)
    ensures
        ne_returns(a, b, r),
        obeys_equality::<T>() ==> r == !equal(a, b),
{
    a != b
}

} // verus!
