//! Interpolation of single values: blending, clamping and steps.
//!
//! Each function is described by a `_req` function, which says when its operations may be
//! made, and by a `_spec` function or, where a default value of the type takes part, by a
//! relation between its arguments and its result (`is_..`). Both speak of the models of the
//! operators: an operator whose result is handed on to another operation must obey its
//! model, and what is stated of the last operator's result holds for element types whose
//! operator obeys its model. A `_returns` relation says what holds of the result for every
//! element type: that it is a value that the last operator may return for its modelled
//! operands, or that it was chosen by answers that the comparisons may give.

use crate::e_x::EX;
use crate::inv::Inv;
use crate::one::One;
use core::ops::{Add, Mul, Neg, Sub};
use vstd::prelude::*;
use vstd::std_specs::ops::{AddSpec, MulSpec, NegSpec, SubSpec};

verus! {

/// `x * (b - a) + a`
pub open spec fn mix_spec<T>(x: T, a: T, b: T) -> T where
    T: Mul<Output = T> + Add<Output = T> + Sub<Output = T>,
 {
    x.mul_spec(b.sub_spec(a)).add_spec(a)
}

/// Whether the operations of `mix_spec` may be made.
pub open spec fn mix_req<T>(x: T, a: T, b: T) -> bool where
    T: Mul<Output = T> + Add<Output = T> + Sub<Output = T>,
 {
    &&& b.sub_req(a)
    &&& x.mul_req(b.sub_spec(a))
    &&& x.mul_spec(b.sub_spec(a)).add_req(a)
}

/// Whether `r` is a value that `x * (b - a) + a` may return, where the subtraction and the
/// multiplication obey their models. For an addition that obeys its model, `r` is
/// `mix_spec(x, a, b)`.
pub open spec fn mix_returns<T>(x: T, a: T, b: T, r: T) -> bool where
    T: Mul<Output = T> + Add<Output = T> + Sub<Output = T>,
 {
    crate::operators::add_returns(x.mul_spec(b.sub_spec(a)), a, r)
}

/// `min` if `x` is less than it, else `max` if `x` is greater than it, else `x`.
pub open spec fn clamp_spec<T: PartialOrd>(x: T, min: T, max: T) -> T {
    if crate::partial_ord::less(x, min) {
        min
    } else if crate::partial_ord::greater(x, max) {
        max
    } else {
        x
    }
}

/// Whether `r` is `x` clamped by answers that its comparisons with the bounds may give:
/// `min` if `x < min` is answered with yes, else `max` if `x > max` is, else `x`.
pub open spec fn clamp_returns<T: PartialOrd>(x: T, min: T, max: T, r: T) -> bool {
    exists|below: bool| #[trigger]
        crate::partial_ord::lt_returns(x, min, below) && (if below {
            r == min
        } else {
            exists|above: bool| #[trigger]
                crate::partial_ord::gt_returns(x, max, above) && r == (if above {
                    max
                } else {
                    x
                })
        })
}

/// Whether `r` is the step of `x` at `a` by an answer that `x > a` may give: the
/// multiplicative identity if the answer is yes, else a default value.
pub open spec fn step_returns<T: Default + PartialOrd + One>(x: T, a: T, r: T) -> bool {
    exists|above: bool| #[trigger]
        crate::partial_ord::gt_returns(x, a, above) && (if above {
            r == T::one_spec()
        } else {
            crate::layer::is_default(r)
        })
}

/// Whether `r` is `x` clamped between a default value of the type and its multiplicative
/// identity.
pub open spec fn is_unit_clamped<T: Default + PartialOrd + One>(x: T, r: T) -> bool {
    exists|zero: T| #[trigger] crate::layer::is_default(zero) && r == clamp_spec(
        x,
        zero,
        T::one_spec(),
    )
}

/// Whether `r` is the step of `x` at `a`: the multiplicative identity if `x` is greater
/// than `a`, else a default value.
pub open spec fn is_step<T: Default + PartialOrd + One>(x: T, a: T, r: T) -> bool {
    if crate::partial_ord::greater(x, a) {
        r == T::one_spec()
    } else {
        crate::layer::is_default(r)
    }
}

/// `(x - a) * inv_diff`
pub open spec fn ratio_inv<T>(x: T, a: T, inv_diff: T) -> T where
    T: Mul<Output = T> + Sub<Output = T>,
 {
    x.sub_spec(a).mul_spec(inv_diff)
}

/// Whether the operations of `ratio_inv` may be made.
pub open spec fn ratio_inv_req<T>(x: T, a: T, inv_diff: T) -> bool where
    T: Mul<Output = T> + Sub<Output = T>,
 {
    &&& x.sub_req(a)
    &&& x.sub_spec(a).mul_req(inv_diff)
}

/// `(x - a) * inv(b - a)`
pub open spec fn ratio<T>(x: T, a: T, b: T) -> T where T: Mul<Output = T> + Sub<Output = T> + Inv {
    ratio_inv(x, a, b.sub_spec(a).inv_spec())
}

/// Whether the operations of `ratio` may be made.
pub open spec fn ratio_req<T>(x: T, a: T, b: T) -> bool where
    T: Mul<Output = T> + Sub<Output = T> + Inv,
 {
    &&& b.sub_req(a)
    &&& b.sub_spec(a).inv_req()
    &&& ratio_inv_req(x, a, b.sub_spec(a).inv_spec())
}

/// Whether `r` is a value that the linear step of `x` from `a` may return, where `inv_diff`
/// is the inverse of the step's length and the subtraction obeys its model: a value that
/// `(x - a) * inv_diff` may return, clamped between a default value and one by answers that
/// the comparisons may give.
pub open spec fn linearstep_inv_returns<T>(x: T, a: T, inv_diff: T, r: T) -> bool where
    T: Default + PartialOrd + Mul<Output = T> + Sub<Output = T> + One,
 {
    exists|t: T, zero: T|
        #![trigger clamp_returns(t, zero, T::one_spec(), r)]
        crate::operators::mul_returns(x.sub_spec(a), inv_diff, t) && crate::layer::is_default(zero)
            && clamp_returns(t, zero, T::one_spec(), r)
}

/// Whether `r` is a value that the linear step of `x` between `a` and `b` may return, where
/// the subtractions obey their model.
pub open spec fn linearstep_returns<T>(x: T, a: T, b: T, r: T) -> bool where
    T: Default + PartialOrd + Mul<Output = T> + Sub<Output = T> + Inv + One,
 {
    linearstep_inv_returns(x, a, b.sub_spec(a).inv_spec(), r)
}

/// Whether `r` is the linear step of `x` between `a` and `b`: `(x - a) / (b - a)`, clamped
/// between zero and one.
pub open spec fn is_linearstep<T>(x: T, a: T, b: T, r: T) -> bool where
    T: Default + PartialOrd + Mul<Output = T> + Sub<Output = T> + Inv + One,
 {
    is_unit_clamped(ratio(x, a, b), r)
}

/// Whether `r` is the linear step of `x` from `a`, where `inv_diff` is the inverse of the
/// step's length.
pub open spec fn is_linearstep_inv<T>(x: T, a: T, inv_diff: T, r: T) -> bool where
    T: Default + PartialOrd + Mul<Output = T> + Sub<Output = T> + One,
 {
    is_unit_clamped(ratio_inv(x, a, inv_diff), r)
}

/// One plus one.
pub open spec fn two<T: One + Add<Output = T>>() -> T {
    T::one_spec().add_spec(T::one_spec())
}

/// One plus one plus one.
pub open spec fn three<T: One + Add<Output = T>>() -> T {
    two::<T>().add_spec(T::one_spec())
}

/// Whether two and three may be built from one.
pub open spec fn small_numbers_req<T: One + Add<Output = T>>() -> bool {
    &&& T::one_spec().add_req(T::one_spec())
    &&& two::<T>().add_req(T::one_spec())
}

/// `l * l * (3 - 2 * l)`
pub open spec fn smooth_spec<T>(l: T) -> T where
    T: Mul<Output = T> + Sub<Output = T> + Add<Output = T> + One,
 {
    l.mul_spec(l).mul_spec(three::<T>().sub_spec(two::<T>().mul_spec(l)))
}

/// Whether the operations of `smooth_spec` may be made.
pub open spec fn smooth_req<T>(l: T) -> bool where
    T: Mul<Output = T> + Sub<Output = T> + Add<Output = T> + One,
 {
    &&& small_numbers_req::<T>()
    &&& l.mul_req(l)
    &&& two::<T>().mul_req(l)
    &&& three::<T>().sub_req(two::<T>().mul_spec(l))
    &&& l.mul_spec(l).mul_req(three::<T>().sub_spec(two::<T>().mul_spec(l)))
}

/// Whether `r` is the smooth step of `x` between `a` and `b`: `l * l * (3 - 2 * l)`, where
/// `l` is the linear step.
pub open spec fn is_smoothstep<T>(x: T, a: T, b: T, r: T) -> bool where
    T: Default + PartialOrd + Mul<Output = T> + Sub<Output = T> + Add<Output = T> + Inv + One,
 {
    exists|l: T| #[trigger] is_linearstep(x, a, b, l) && r == smooth_spec(l)
}

/// Whether the operations of the smooth step of `x` between `a` and `b` may be made.
pub open spec fn smoothstep_req<T>(x: T, a: T, b: T) -> bool where
    T: Default + PartialOrd + Mul<Output = T> + Sub<Output = T> + Add<Output = T> + Inv + One,
 {
    &&& ratio_req(x, a, b)
    &&& forall|l: T| #[trigger] is_linearstep(x, a, b, l) ==> smooth_req(l)
}

/// Whether `r` is the smooth step of `x` from `a`, where `inv_diff` is the inverse of the
/// step's length.
pub open spec fn is_smoothstep_inv<T>(x: T, a: T, inv_diff: T, r: T) -> bool where
    T: Default + PartialOrd + Mul<Output = T> + Sub<Output = T> + Add<Output = T> + One,
 {
    exists|l: T| #[trigger] is_linearstep_inv(x, a, inv_diff, l) && r == smooth_spec(l)
}

/// Whether the operations of the smooth step of `x` from `a` may be made.
pub open spec fn smoothstep_inv_req<T>(x: T, a: T, inv_diff: T) -> bool where
    T: Default + PartialOrd + Mul<Output = T> + Sub<Output = T> + Add<Output = T> + One,
 {
    &&& ratio_inv_req(x, a, inv_diff)
    &&& forall|l: T| #[trigger] is_linearstep_inv(x, a, inv_diff, l) ==> smooth_req(l)
}

/// `2 / (e^(k * x) + 1) - 1`
pub open spec fn logistic_spec<T>(x: T, k: T) -> T where
    T: Mul<Output = T> + Add<Output = T> + Sub<Output = T> + EX<Output = T> + Inv + One,
 {
    k.mul_spec(x).e_x_spec().add_spec(T::one_spec()).inv_spec().mul_spec(two::<T>()).sub_spec(
        T::one_spec(),
    )
}

/// Whether `r` is a value that `2 / (e^(k * x) + 1) - 1` may return, where the
/// multiplications and the addition obey their models. For a subtraction that obeys its
/// model, `r` is `logistic_spec(x, k)`.
pub open spec fn logistic_returns<T>(x: T, k: T, r: T) -> bool where
    T: Mul<Output = T> + Add<Output = T> + Sub<Output = T> + EX<Output = T> + Inv + One,
 {
    crate::operators::sub_returns(
        k.mul_spec(x).e_x_spec().add_spec(T::one_spec()).inv_spec().mul_spec(two::<T>()),
        T::one_spec(),
        r,
    )
}

/// Whether the operations of `logistic_spec` may be made.
pub open spec fn logistic_req<T>(x: T, k: T) -> bool where
    T: Mul<Output = T> + Add<Output = T> + Sub<Output = T> + EX<Output = T> + Inv + One,
 {
    let grown = k.mul_spec(x).e_x_spec().add_spec(T::one_spec());
    &&& T::one_spec().add_req(T::one_spec())
    &&& k.mul_req(x)
    &&& k.mul_spec(x).e_x_req()
    &&& k.mul_spec(x).e_x_spec().add_req(T::one_spec())
    &&& grown.inv_req()
    &&& grown.inv_spec().mul_req(two::<T>())
    &&& grown.inv_spec().mul_spec(two::<T>()).sub_req(T::one_spec())
}

/// Whether `r` is the value at `x` of the line through the first `k + 1` control points
/// `(xs[0], ys[0])`, ..., `(xs[k], ys[k])`: the value of the first point, blended in turn
/// towards the value of each later point by the linear step of `x` between that point and
/// the one before it.
pub open spec fn is_lerp<T>(x: T, xs: Seq<T>, ys: Seq<T>, k: int, r: T) -> bool where
    T: Default + PartialOrd + Mul<Output = T> + Add<Output = T> + Sub<Output = T> + Inv + One,

    decreases k,
{
    if k <= 0 {
        r == ys[0]
    } else {
        exists|t: T, before: T|
            #![trigger mix_spec(t, before, ys[k])]
            is_linearstep(x, xs[k - 1], xs[k], t) && is_lerp(x, xs, ys, k - 1, before) && r
                == mix_spec(t, before, ys[k])
    }
}

/// Whether the operations of the interpolation through the first `k + 1` control points
/// may be made.
pub open spec fn lerp_req<T>(x: T, xs: Seq<T>, ys: Seq<T>, k: int) -> bool where
    T: Default + PartialOrd + Mul<Output = T> + Add<Output = T> + Sub<Output = T> + Inv + One,

    decreases k,
{
    if k <= 0 {
        true
    } else {
        &&& lerp_req(x, xs, ys, k - 1)
        &&& ratio_req(x, xs[k - 1], xs[k])
        &&& forall|t: T, before: T|
            #![trigger mix_req(t, before, ys[k])]
            is_linearstep(x, xs[k - 1], xs[k], t) && is_lerp(x, xs, ys, k - 1, before)
                ==> mix_req(t, before, ys[k])
    }
}

/// Linear blend from `a`, where `x` is zero, to `b`, where `x` is one.
pub fn mix<T>(x: T, a: T, b: T) -> (r: T) where
    T: Copy + Mul<Output = T> + Add<Output = T> + Sub<Output = T>,

    requires
        <T as SubSpec<T>>::obeys_sub_spec(),
        <T as MulSpec<T>>::obeys_mul_spec(),
        mix_req(x, a, b),
    ensures
        mix_returns(x, a, b, r),
        <T as AddSpec<T>>::obeys_add_spec() ==> r == mix_spec(x, a, b),
{
    x * (b - a) + a
}

/// `x`, held between `min` and `max`.
pub fn clamp<T>(x: T, min: T, max: T) -> (r: T) where T: Copy + PartialOrd
    ensures
        clamp_returns(x, min, max, r),
        crate::partial_ord::obeys_order::<T>() ==> r == clamp_spec(x, min, max),
{
    let below = x < min;
    assert(crate::partial_ord::lt_returns(x, min, below));
    if below {
        min
    } else {
        let above = x > max;
        assert(crate::partial_ord::gt_returns(x, max, above));
        if above {
            max
        } else {
            x
        }
    }
}

/// One if `x` is greater than `a`, else zero.
pub fn step<T>(x: T, a: T) -> (r: T) where T: Default + PartialOrd + One
    ensures
        step_returns(x, a, r),
        crate::partial_ord::obeys_order::<T>() ==> is_step(x, a, r),
{
    let above = x > a;
    assert(crate::partial_ord::gt_returns(x, a, above));
    if above {
        T::one()
    } else {
        T::default()
    }
}

/// `(x - a) / (b - a)`, clamped between zero and one.
pub fn linearstep<T>(x: T, a: T, b: T) -> (r: T) where
    T: Copy + Default + PartialOrd + Mul<Output = T> + Sub<Output = T> + Inv + One,

    requires
        <T as SubSpec<T>>::obeys_sub_spec(),
        ratio_req(x, a, b),
    ensures
        linearstep_returns(x, a, b, r),
        <T as MulSpec<T>>::obeys_mul_spec() && crate::partial_ord::obeys_order::<T>()
            ==> is_linearstep(x, a, b, r),
{
    let zero = T::default();
    assert(crate::layer::is_default(zero));
    let t = (x - a) * (b - a).inv();
    clamp(t, zero, T::one())
}

/// `l * l * (3 - 2 * l)`, where `l` is the linear step of `x` between `a` and `b`.
pub fn smoothstep<T>(x: T, a: T, b: T) -> (r: T) where
    T: Copy + Default + PartialOrd + Mul<Output = T> + Sub<Output = T> + Add<Output = T> + Inv
        + One,

    requires
        <T as SubSpec<T>>::obeys_sub_spec(),
        <T as MulSpec<T>>::obeys_mul_spec(),
        <T as AddSpec<T>>::obeys_add_spec(),
        crate::partial_ord::obeys_order::<T>(),
        smoothstep_req(x, a, b),
    ensures
        is_smoothstep(x, a, b, r),
{
    let l = linearstep(x, a, b);
    let two = T::one() + T::one();
    let three = two + T::one();
    l * l * (three - two * l)
}

/// The linear step of `x` from `a`, where `inv_diff` is the inverse of the step's length.
pub fn linearstep_inv<T>(x: T, a: T, inv_diff: T) -> (r: T) where
    T: Copy + Default + PartialOrd + Mul<Output = T> + Sub<Output = T> + One,

    requires
        <T as SubSpec<T>>::obeys_sub_spec(),
        ratio_inv_req(x, a, inv_diff),
    ensures
        linearstep_inv_returns(x, a, inv_diff, r),
        <T as MulSpec<T>>::obeys_mul_spec() && crate::partial_ord::obeys_order::<T>()
            ==> is_linearstep_inv(x, a, inv_diff, r),
{
    let zero = T::default();
    assert(crate::layer::is_default(zero));
    let t = (x - a) * inv_diff;
    clamp(t, zero, T::one())
}

/// The smooth step of `x` from `a`, where `inv_diff` is the inverse of the step's length.
pub fn smoothstep_inv<T>(x: T, a: T, inv_diff: T) -> (r: T) where
    T: Copy + Default + PartialOrd + Mul<Output = T> + Sub<Output = T> + Add<Output = T> + One,

    requires
        <T as SubSpec<T>>::obeys_sub_spec(),
        <T as MulSpec<T>>::obeys_mul_spec(),
        <T as AddSpec<T>>::obeys_add_spec(),
        crate::partial_ord::obeys_order::<T>(),
        smoothstep_inv_req(x, a, inv_diff),
    ensures
        is_smoothstep_inv(x, a, inv_diff, r),
{
    let l = linearstep_inv(x, a, inv_diff);
    let two = T::one() + T::one();
    let three = two + T::one();
    l * l * (three - two * l)
}

/// A step in the shape of the logistic curve, from minus one to one with slope `k`:
/// `2 / (e^(-k * x) + 1) - 1`.
pub fn smoothstep2<T>(x: T, k: T) -> (r: T) where
    T: Copy + Neg<Output = T> + Mul<Output = T> + Add<Output = T> + Sub<Output = T> + EX<
        Output = T,
    > + Inv + One,

    requires
        <T as NegSpec>::obeys_neg_spec(),
        <T as MulSpec<T>>::obeys_mul_spec(),
        <T as AddSpec<T>>::obeys_add_spec(),
        k.neg_req(),
        logistic_req(x, k.neg_spec()),
    ensures
        logistic_returns(x, k.neg_spec(), r),
        <T as SubSpec<T>>::obeys_sub_spec() ==> r == logistic_spec(x, k.neg_spec()),
{
    let two = T::one() + T::one();
    ((k.neg() * x).e_x() + T::one()).inv() * two - T::one()
}

/// `smoothstep2` for a slope that is handed over negated: `2 / (e^(k * x) + 1) - 1`.
pub fn smoothstep2_neg<T>(x: T, k: T) -> (r: T) where
    T: Copy + Mul<Output = T> + Add<Output = T> + Sub<Output = T> + EX<Output = T> + Inv + One,

    requires
        <T as MulSpec<T>>::obeys_mul_spec(),
        <T as AddSpec<T>>::obeys_add_spec(),
        logistic_req(x, k),
    ensures
        logistic_returns(x, k, r),
        <T as SubSpec<T>>::obeys_sub_spec() ==> r == logistic_spec(x, k),
{
    let two = T::one() + T::one();
    ((k * x).e_x() + T::one()).inv() * two - T::one()
}

/// Piecewise linear interpolation at `x` through the control points `(xs[i], ys[i])`,
/// whose `xs` ascend.
pub fn lerp<T>(x: T, xs: &[T], ys: &[T]) -> (r: T) where
    T: Copy + Default + PartialOrd + Mul<Output = T> + Add<Output = T> + Sub<Output = T> + Inv
        + One,

    requires
        xs@.len() >= 1,
        ys@.len() >= xs@.len(),
        <T as SubSpec<T>>::obeys_sub_spec(),
        <T as MulSpec<T>>::obeys_mul_spec(),
        <T as AddSpec<T>>::obeys_add_spec(),
        crate::partial_ord::obeys_order::<T>(),
        lerp_req(x, xs@, ys@, xs@.len() - 1),
    ensures
        is_lerp(x, xs@, ys@, xs@.len() - 1, r),
{
    let n: usize = xs.len();
    let mut result = ys[0];
    let mut k: usize = 1;
    while k < n
        invariant
            1 <= k <= n,
            n == xs@.len(),
            ys@.len() >= n,
            <T as SubSpec<T>>::obeys_sub_spec(),
            <T as MulSpec<T>>::obeys_mul_spec(),
            <T as AddSpec<T>>::obeys_add_spec(),
            crate::partial_ord::obeys_order::<T>(),
            lerp_req(x, xs@, ys@, n - 1),
            is_lerp(x, xs@, ys@, k - 1, result),
        decreases n - k,
    {
        proof {
            lemma_lerp_req_holds_earlier(x, xs@, ys@, k as int, n - 1);
        }
        let ghost before = result;
        let t = linearstep(x, xs[k - 1], xs[k]);
        result = mix(t, result, ys[k]);
        assert(is_lerp(x, xs@, ys@, k as int, result)) by {
            assert(is_linearstep(x, xs@[k - 1], xs@[k as int], t));
            assert(is_lerp(x, xs@, ys@, k - 1, before));
            assert(result == mix_spec(t, before, ys@[k as int]));
        }
        k += 1;
    }
    result
}

/// A step that is given the inverse of its length is the step between the bounds.
pub proof fn lemma_step_by_inverse<T>(x: T, a: T, b: T) where
    T: Default + PartialOrd + Mul<Output = T> + Sub<Output = T> + Add<Output = T> + Inv + One,

    ensures
        forall|l: T| #[trigger]
            is_linearstep_inv(x, a, b.sub_spec(a).inv_spec(), l) == is_linearstep(x, a, b, l),
        smoothstep_req(x, a, b) ==> smoothstep_inv_req(x, a, b.sub_spec(a).inv_spec()),
        forall|r: T| #[trigger]
            is_smoothstep_inv(x, a, b.sub_spec(a).inv_spec(), r) ==> is_smoothstep(x, a, b, r),
{
    let inv_diff = b.sub_spec(a).inv_spec();
    assert forall|l: T| #[trigger] is_linearstep_inv(x, a, inv_diff, l) == is_linearstep(
        x,
        a,
        b,
        l,
    ) by {}
    if smoothstep_req(x, a, b) {
        assert forall|l: T| #[trigger] is_linearstep_inv(x, a, inv_diff, l) implies smooth_req(
            l,
        ) by {
            assert(is_linearstep(x, a, b, l));
        }
    }
    assert forall|r: T| #[trigger] is_smoothstep_inv(x, a, inv_diff, r) implies is_smoothstep(
        x,
        a,
        b,
        r,
    ) by {
        let l = choose|l: T| #[trigger] is_linearstep_inv(x, a, inv_diff, l) && r == smooth_spec(l);
        assert(is_linearstep(x, a, b, l));
    }
}

/// Where the interpolation through `n + 1` control points may be made, that through fewer
/// may be made too.
pub proof fn lemma_lerp_req_holds_earlier<T>(x: T, xs: Seq<T>, ys: Seq<T>, k: int, n: int) where
    T: Default + PartialOrd + Mul<Output = T> + Add<Output = T> + Sub<Output = T> + Inv + One,

    requires
        k <= n,
        lerp_req(x, xs, ys, n),
    ensures
        lerp_req(x, xs, ys, k),
    decreases n - k,
{
    if k < n {
        lemma_lerp_req_holds_earlier(x, xs, ys, k + 1, n);
    }
}

} // verus!
