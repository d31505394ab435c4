//! What the arithmetic operators and the conversions of an element type may return.
//!
//! An operator of the standard library is described by three functions of its type: `_req`
//! says when it may be applied, `_spec` is its model, and `obeys_.._spec` says whether its
//! results are those of the model. The integer types obey their models. A type that does
//! not, such as a floating-point number, may still promise something of its results; the
//! relations of this module hold of the results of every type.

use core::ops::{Add, Div, Mul, Sub};
use vstd::prelude::*;
use vstd::std_specs::ops::{AddSpec, DivSpec, MulSpec, SubSpec};

verus! {

/// Whether `r` is a value that `a + b` may return.
pub open spec fn add_returns<T: Add<U>, U>(a: T, b: U, r: <T as Add<U>>::Output) -> bool {
    call_ensures(<T as Add<U>>::add, (a, b), r)
}

/// Whether `r` is a value that `a - b` may return.
pub open spec fn sub_returns<T: Sub<U>, U>(a: T, b: U, r: <T as Sub<U>>::Output) -> bool {
    call_ensures(<T as Sub<U>>::sub, (a, b), r)
}

/// Whether `r` is a value that `a * b` may return.
pub open spec fn mul_returns<T: Mul<U>, U>(a: T, b: U, r: <T as Mul<U>>::Output) -> bool {
    call_ensures(<T as Mul<U>>::mul, (a, b), r)
}

/// Whether `r` is a value that `a / b` may return.
pub open spec fn div_returns<T: Div<U>, U>(a: T, b: U, r: <T as Div<U>>::Output) -> bool {
    call_ensures(<T as Div<U>>::div, (a, b), r)
}

/// Whether `r` is a value that the conversion of `a` into `U` may return.
pub open spec fn into_returns<T: Into<U>, U>(a: T, r: U) -> bool {
    call_ensures(<T as Into<U>>::into, (a,), r)
}

/// An addition that obeys its model returns what the model says.
pub proof fn lemma_add_returns_model<T: Add<U>, U>(a: T, b: U, r: <T as Add<U>>::Output)
    requires
        <T as AddSpec<U>>::obeys_add_spec(),
        add_returns(a, b, r),
    ensures
        r == a.add_spec(b),
{
}

/// A subtraction that obeys its model returns what the model says.
pub proof fn lemma_sub_returns_model<T: Sub<U>, U>(a: T, b: U, r: <T as Sub<U>>::Output)
    requires
        <T as SubSpec<U>>::obeys_sub_spec(),
        sub_returns(a, b, r),
    ensures
        r == a.sub_spec(b),
{
}

/// A multiplication that obeys its model returns what the model says.
pub proof fn lemma_mul_returns_model<T: Mul<U>, U>(a: T, b: U, r: <T as Mul<U>>::Output)
    requires
        <T as MulSpec<U>>::obeys_mul_spec(),
        mul_returns(a, b, r),
    ensures
        r == a.mul_spec(b),
{
}

/// A division that obeys its model returns what the model says.
pub proof fn lemma_div_returns_model<T: Div<U>, U>(a: T, b: U, r: <T as Div<U>>::Output)
    requires
        <T as DivSpec<U>>::obeys_div_spec(),
        div_returns(a, b, r),
    ensures
        r == a.div_spec(b),
{
}

} // verus!
