//! Comparisons of partially ordered values, as functions that can be handed to a mapping.

use vstd::prelude::*;
use vstd::std_specs::cmp::{PartialOrdIs, PartialOrdSpec};

verus! {

/// Whether the comparison operators of `T` agree with the order that contracts speak of.
pub open spec fn obeys_order<T: PartialOrd>() -> bool {
    T::obeys_partial_cmp_spec()
}

/// `a < b`
pub open spec fn less<T: PartialOrd>(a: T, b: T) -> bool {
    a.is_lt(&b)
}

/// `a <= b`
pub open spec fn less_eq<T: PartialOrd>(a: T, b: T) -> bool {
    a.is_le(&b)
}

/// `a > b`
pub open spec fn greater<T: PartialOrd>(a: T, b: T) -> bool {
    a.is_gt(&b)
}

/// `a >= b`
pub open spec fn greater_eq<T: PartialOrd>(a: T, b: T) -> bool {
    a.is_ge(&b)
}

/// Whether `r` is an answer that `a < b` may give. Where comparisons obey their model, it is
/// `less(a, b)`.
pub open spec fn lt_returns<T: PartialOrd>(a: T, b: T, r: bool) -> bool {
    call_ensures(<T as PartialOrd>::lt, (&a, &b), r)
}

/// Whether `r` is an answer that `a <= b` may give.
pub open spec fn le_returns<T: PartialOrd>(a: T, b: T, r: bool) -> bool {
    call_ensures(<T as PartialOrd>::le, (&a, &b), r)
}

/// Whether `r` is an answer that `a > b` may give.
pub open spec fn gt_returns<T: PartialOrd>(a: T, b: T, r: bool) -> bool {
    call_ensures(<T as PartialOrd>::gt, (&a, &b), r)
}

/// Whether `r` is an answer that `a >= b` may give.
pub open spec fn ge_returns<T: PartialOrd>(a: T, b: T, r: bool) -> bool {
    call_ensures(<T as PartialOrd>::ge, (&a, &b), r)
}

/// Whether `r` is the lesser of `a` and `b` by an answer that `a < b` may give: `a` if the
/// answer is yes, else `b`.
pub open spec fn is_lesser_of<T: PartialOrd>(a: T, b: T, r: T) -> bool {
    exists|less: bool| #[trigger] lt_returns(a, b, less) && r == (if less {
        a
    } else {
        b
    })
}

/// Whether `r` is the greater of `a` and `b` by an answer that `a > b` may give: `a` if the
/// answer is yes, else `b`.
pub open spec fn is_greater_of<T: PartialOrd>(a: T, b: T, r: T) -> bool {
    exists|greater: bool| #[trigger] gt_returns(a, b, greater) && r == (if greater {
        a
    } else {
        b
    })
}

/// `a` if it is less than `b`, else `b`.
pub open spec fn lesser_of<T: PartialOrd>(a: T, b: T) -> T {
    if less(a, b) {
        a
    } else {
        b
    }
}

/// `a` if it is greater than `b`, else `b`.
pub open spec fn greater_of<T: PartialOrd>(a: T, b: T) -> T {
    if greater(a, b) {
        a
    } else {
        b
    }
}

/// Whether the order of `T` is total: comparisons obey their model, `<` is irreflexive and
/// transitive, any two values are equal or one is less than the other, and the other
/// comparisons are what `<` and equality make them.
pub open spec fn obeys_total_order<T: PartialOrd>() -> bool {
    &&& obeys_order::<T>()
    &&& forall|a: T| !#[trigger] less(a, a)
    &&& forall|a: T, b: T, c: T| #[trigger] less(a, b) && #[trigger] less(b, c) ==> less(a, c)
    &&& forall|a: T, b: T| #[trigger] less(a, b) || less(b, a) || a == b
    &&& forall|a: T, b: T| #[trigger] greater(a, b) == less(b, a)
    &&& forall|a: T, b: T| #[trigger] less_eq(a, b) == (less(a, b) || a == b)
    &&& forall|a: T, b: T| #[trigger] greater_eq(a, b) == (less(b, a) || a == b)
}

/// The order of `u8` is total.
pub proof fn lemma_total_order_u8()
    ensures
        obeys_total_order::<u8>(),
{
}

/// The order of `u16` is total.
pub proof fn lemma_total_order_u16()
    ensures
        obeys_total_order::<u16>(),
{
}

/// The order of `u32` is total.
pub proof fn lemma_total_order_u32()
    ensures
        obeys_total_order::<u32>(),
{
}

/// The order of `u64` is total.
pub proof fn lemma_total_order_u64()
    ensures
        obeys_total_order::<u64>(),
{
}

/// The order of `i8` is total.
pub proof fn lemma_total_order_i8()
    ensures
        obeys_total_order::<i8>(),
{
}

/// The order of `i16` is total.
pub proof fn lemma_total_order_i16()
    ensures
        obeys_total_order::<i16>(),
{
}

/// The order of `i32` is total.
pub proof fn lemma_total_order_i32()
    ensures
        obeys_total_order::<i32>(),
{
}

/// The order of `i64` is total.
pub proof fn lemma_total_order_i64()
    ensures
        obeys_total_order::<i64>(),
{
}

/// The lesser of two values: `a` if `a < b`, else `b`.
pub fn partial_min<T: PartialOrd>(a: T, b: T) -> (r: T)
    ensures
        is_lesser_of(a, b, r),
        obeys_order::<T>() ==> r == lesser_of(a, b),
{
    let less = a < b;
    assert(lt_returns(a, b, less));
    if less {
        a
    } else {
        b
    }
}

/// The greater of two values: `a` if `a > b`, else `b`.
pub fn partial_max<T: PartialOrd>(a: T, b: T) -> (r: T)
    ensures
        is_greater_of(a, b, r),
        obeys_order::<T>() ==> r == greater_of(a, b),
{
    let greater = a > b;
    assert(gt_returns(a, b, greater));
    if greater {
        a
    } else {
        b
    }
}

/// `a < b`
pub fn lt<T: PartialOrd>(a: T, b: T) -> (r: bool)
    ensures
        lt_returns(a, b, r),
        obeys_order::<T>() ==> r == less(a, b),
{
    a < b
}

/// `a > b`
pub fn gt<T: PartialOrd>(a: T, b: T) -> (r: bool)
    ensures
        gt_returns(a, b, r),
        obeys_order::<T>() ==> r == greater(a, b),
{
    a > b
}

/// `a <= b`
pub fn le<T: PartialOrd>(a: T, b: T) -> (r: bool)
    ensures
        le_returns(a, b, r),
        obeys_order::<T>() ==> r == less_eq(a, b),
{
    a <= b
}

/// `a >= b`
pub fn ge<T: PartialOrd>(a: T, b: T) -> (r: bool)
    ensures
        ge_returns(a, b, r),
        obeys_order::<T>() ==> r == greater_eq(a, b),
{
    a >= b
}

} // verus!
