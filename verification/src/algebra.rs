//! What the interpolations and the normalization yield at the ends of their ranges, and that
//! rescaling there and back reproduces a layer, for element types whose arithmetic obeys the
//! laws of an ordered field.
//!
//! The integer types do not obey these laws, as they have no inverse. The laws are meant
//! for exact numbers that a user of the library brings along.

use crate::inv::Inv;
use crate::one::One;
use core::ops::{Add, Div, Mul, Sub};
use vstd::prelude::*;
use vstd::std_specs::ops::{AddSpec, DivSpec, MulSpec, SubSpec};

verus! {

/// Whether the arithmetic of `T` obeys the laws of an ordered field, as far as the
/// statements of this module rest on them. The default value of the type is the zero of
/// the field.
pub open spec fn obeys_field_laws<T>() -> bool where
    T: Default + PartialOrd + Add<Output = T> + Sub<Output = T> + Mul<Output = T> + Inv + One,
 {
    let one = T::one_spec();
    &&& crate::partial_ord::obeys_total_order::<T>()
    &&& forall|zero: T| #[trigger]
        crate::layer::is_default(zero) ==> {
            &&& crate::partial_ord::less(zero, one)
            &&& forall|x: T| #[trigger] x.sub_spec(x) == zero
            &&& forall|x: T| #[trigger] x.sub_spec(zero) == x
            &&& forall|x: T| #[trigger] zero.mul_spec(x) == zero
            &&& forall|x: T|
                crate::partial_ord::less(zero, x) ==> crate::partial_ord::less(
                    zero,
                    #[trigger] x.inv_spec(),
                )
            &&& forall|x: T, y: T, z: T|
                crate::partial_ord::less(x, y) && crate::partial_ord::less(zero, z)
                    ==> crate::partial_ord::less(#[trigger] x.mul_spec(z), #[trigger] y.mul_spec(z))
        }
    &&& forall|x: T| #[trigger] one.mul_spec(x) == x
    &&& forall|x: T| #[trigger] x.mul_spec(one) == x
    &&& forall|x: T| !crate::layer::is_default(x) ==> #[trigger] x.mul_spec(x.inv_spec()) == one
    &&& forall|x: T, y: T| crate::layer::is_default(#[trigger] x.sub_spec(y)) ==> x == y
    &&& forall|x: T, y: T| #[trigger] x.add_spec(y).sub_spec(x) == y
    &&& forall|x: T, y: T, z: T|
        crate::partial_ord::less(x, y) ==> crate::partial_ord::less(
            #[trigger] x.sub_spec(z),
            #[trigger] y.sub_spec(z),
        )
}

/// A clamped value lies between the bounds, where the lower bound is not greater than the
/// upper.
pub proof fn lemma_clamp_within_bounds<T: PartialOrd>(x: T, min: T, max: T)
    requires
        crate::partial_ord::obeys_total_order::<T>(),
        crate::partial_ord::less_eq(min, max),
    ensures
        crate::partial_ord::less_eq(min, crate::interpolations::clamp_spec(x, min, max)),
        crate::partial_ord::less_eq(crate::interpolations::clamp_spec(x, min, max), max),
{
    let r = crate::interpolations::clamp_spec(x, min, max);
    assert(crate::partial_ord::less(min, max) || min == max);
    if crate::partial_ord::less(x, min) {
    } else if crate::partial_ord::greater(x, max) {
    } else {
        assert(crate::partial_ord::less(x, min) || crate::partial_ord::less(min, x) || x == min);
        assert(crate::partial_ord::less(x, max) || crate::partial_ord::less(max, x) || x == max);
    }
}

/// A value that is clamped to the unit range is zero where it lies below zero.
pub proof fn lemma_unit_clamp_below<T>(x: T, r: T) where
    T: Default + PartialOrd + Add<Output = T> + Sub<Output = T> + Mul<Output = T> + Inv + One,

    requires
        obeys_field_laws::<T>(),
        crate::interpolations::is_unit_clamped(x, r),
        forall|zero: T| #[trigger] crate::layer::is_default(zero) ==>
            crate::partial_ord::less(x, zero),
    ensures
        crate::layer::is_default(r),
{
}

/// A value that is clamped to the unit range is one where it lies above one.
pub proof fn lemma_unit_clamp_above<T>(x: T, r: T) where
    T: Default + PartialOrd + Add<Output = T> + Sub<Output = T> + Mul<Output = T> + Inv + One,

    requires
        obeys_field_laws::<T>(),
        crate::interpolations::is_unit_clamped(x, r),
        crate::partial_ord::less(T::one_spec(), x),
    ensures
        r == T::one_spec(),
{
    let zero = choose|zero: T| #[trigger]
        crate::layer::is_default(zero) && r == crate::interpolations::clamp_spec(
            x,
            zero,
            T::one_spec(),
        );
    assert(crate::partial_ord::less(zero, T::one_spec()));
    assert(crate::partial_ord::less(zero, x));
    assert(!crate::partial_ord::less(x, zero)) by {
        if crate::partial_ord::less(x, zero) {
            assert(crate::partial_ord::less(zero, zero));
        }
    }
    assert(crate::partial_ord::greater(x, T::one_spec()));
}

/// The linear step is zero at the lower bound: `linearstep(a, a, b) == 0`.
pub proof fn lemma_linearstep_at_lower<T>(a: T, b: T, r: T) where
    T: Default + PartialOrd + Add<Output = T> + Sub<Output = T> + Mul<Output = T> + Inv + One,

    requires
        obeys_field_laws::<T>(),
        crate::interpolations::is_linearstep(a, a, b, r),
    ensures
        crate::layer::is_default(r),
{
    let x = crate::interpolations::ratio(a, a, b);
    let zero = choose|zero: T| #[trigger]
        crate::layer::is_default(zero) && r == crate::interpolations::clamp_spec(
            x,
            zero,
            T::one_spec(),
        );
    assert(a.sub_spec(a) == zero);
    assert(x == zero.mul_spec(b.sub_spec(a).inv_spec()));
    assert(x == zero);
    assert(crate::partial_ord::less(zero, T::one_spec()));
    assert(!crate::partial_ord::less(zero, zero));
    assert(!crate::partial_ord::greater(zero, T::one_spec())) by {
        if crate::partial_ord::less(T::one_spec(), zero) {
            assert(crate::partial_ord::less(zero, zero));
        }
    }
}

/// The linear step is one at the upper bound, where the bounds differ:
/// `linearstep(b, a, b) == 1`.
pub proof fn lemma_linearstep_at_upper<T>(a: T, b: T, r: T) where
    T: Default + PartialOrd + Add<Output = T> + Sub<Output = T> + Mul<Output = T> + Inv + One,

    requires
        obeys_field_laws::<T>(),
        a != b,
        crate::interpolations::is_linearstep(b, a, b, r),
    ensures
        r == T::one_spec(),
{
    let one = T::one_spec();
    let x = crate::interpolations::ratio(b, a, b);
    let zero = choose|zero: T| #[trigger]
        crate::layer::is_default(zero) && r == crate::interpolations::clamp_spec(x, zero, one);
    let d = b.sub_spec(a);
    assert(!crate::layer::is_default(d));
    assert(x == d.mul_spec(d.inv_spec()));
    assert(x == one);
    assert(crate::partial_ord::less(zero, one));
    assert(!crate::partial_ord::less(one, zero)) by {
        if crate::partial_ord::less(one, zero) {
            assert(crate::partial_ord::less(zero, zero));
        }
    }
    assert(!crate::partial_ord::less(one, one));
    assert(!crate::partial_ord::greater(one, one));
}

/// The linear step saturates to exactly zero below the lower bound.
pub proof fn lemma_linearstep_below<T>(x: T, a: T, b: T, r: T) where
    T: Default + PartialOrd + Add<Output = T> + Sub<Output = T> + Mul<Output = T> + Inv + One,

    requires
        obeys_field_laws::<T>(),
        crate::partial_ord::less(x, a),
        crate::partial_ord::less(a, b),
        crate::interpolations::is_linearstep(x, a, b, r),
    ensures
        crate::layer::is_default(r),
{
    let t = crate::interpolations::ratio(x, a, b);
    assert forall|zero: T| #[trigger] crate::layer::is_default(
        zero,
    ) implies crate::partial_ord::less(
        t,
        zero,
    ) by {
        let inv_diff = b.sub_spec(a).inv_spec();
        assert(a.sub_spec(a) == zero);
        assert(crate::partial_ord::less(x.sub_spec(a), a.sub_spec(a)));
        assert(crate::partial_ord::less(a.sub_spec(a), b.sub_spec(a)));
        assert(crate::partial_ord::less(zero, inv_diff));
        assert(crate::partial_ord::less(x.sub_spec(a).mul_spec(inv_diff), zero.mul_spec(inv_diff)));
        assert(zero.mul_spec(inv_diff) == zero);
    }
    lemma_unit_clamp_below(t, r);
}

/// The linear step saturates to exactly one above the upper bound.
pub proof fn lemma_linearstep_above<T>(x: T, a: T, b: T, r: T) where
    T: Default + PartialOrd + Add<Output = T> + Sub<Output = T> + Mul<Output = T> + Inv + One,

    requires
        obeys_field_laws::<T>(),
        crate::partial_ord::less(b, x),
        crate::partial_ord::less(a, b),
        crate::interpolations::is_linearstep(x, a, b, r),
    ensures
        r == T::one_spec(),
{
    let t = crate::interpolations::ratio(x, a, b);
    let zero = choose|zero: T| #[trigger]
        crate::layer::is_default(zero) && r == crate::interpolations::clamp_spec(
            t,
            zero,
            T::one_spec(),
        );
    let d = b.sub_spec(a);
    let inv_diff = d.inv_spec();
    assert(a.sub_spec(a) == zero);
    assert(crate::partial_ord::less(a.sub_spec(a), d));
    assert(crate::partial_ord::less(zero, inv_diff));
    assert(crate::partial_ord::less(d, x.sub_spec(a)));
    assert(crate::partial_ord::less(d.mul_spec(inv_diff), x.sub_spec(a).mul_spec(inv_diff)));
    assert(!crate::layer::is_default(d)) by {
        if crate::layer::is_default(d) {
            assert(b == a);
            assert(!crate::partial_ord::less(a, a));
        }
    }
    assert(d.mul_spec(inv_diff) == T::one_spec());
    lemma_unit_clamp_above(t, r);
}

/// The smooth step is zero at the lower bound: `smoothstep(a, a, b) == 0`.
pub proof fn lemma_smoothstep_at_lower<T>(a: T, b: T, r: T) where
    T: Default + PartialOrd + Add<Output = T> + Sub<Output = T> + Mul<Output = T> + Inv + One,

    requires
        obeys_field_laws::<T>(),
        crate::interpolations::is_smoothstep(a, a, b, r),
    ensures
        crate::layer::is_default(r),
{
    let l = choose|l: T| #[trigger]
        crate::interpolations::is_linearstep(a, a, b, l) && r == crate::interpolations::smooth_spec(
            l,
        );
    lemma_linearstep_at_lower(a, b, l);
    assert(l.mul_spec(l) == l);
    assert(r == l.mul_spec(
        crate::interpolations::three::<T>().sub_spec(crate::interpolations::two::<T>().mul_spec(l)),
    ));
}

/// The smooth step is one at the upper bound, where the bounds differ:
/// `smoothstep(b, a, b) == 1`.
pub proof fn lemma_smoothstep_at_upper<T>(a: T, b: T, r: T) where
    T: Default + PartialOrd + Add<Output = T> + Sub<Output = T> + Mul<Output = T> + Inv + One,

    requires
        obeys_field_laws::<T>(),
        a != b,
        crate::interpolations::is_smoothstep(b, a, b, r),
    ensures
        r == T::one_spec(),
{
    let one = T::one_spec();
    let l = choose|l: T| #[trigger]
        crate::interpolations::is_linearstep(b, a, b, l) && r == crate::interpolations::smooth_spec(
            l,
        );
    lemma_linearstep_at_upper(a, b, l);
    let two = crate::interpolations::two::<T>();
    let three = crate::interpolations::three::<T>();
    assert(l == one);
    assert(one.mul_spec(one) == one);
    assert(two.mul_spec(one) == two);
    assert(three == two.add_spec(one));
    assert(two.add_spec(one).sub_spec(two) == one);
}

/// Normalizing a value of the range from zero to one changes nothing:
/// `(x - 0) * inv(1 - 0) == x`.
pub proof fn lemma_normalized_in_unit_range<T>(x: T, zero: T) where
    T: Default + PartialOrd + Add<Output = T> + Sub<Output = T> + Mul<Output = T> + Inv + One,

    requires
        obeys_field_laws::<T>(),
        crate::layer::is_default(zero),
    ensures
        crate::layer::statistics::normalized(
            x,
            zero,
            crate::layer::statistics::normalize_factor(zero, T::one_spec()),
        ) == x,
{
    let one = T::one_spec();
    assert(one.sub_spec(zero) == one);
    assert(!crate::layer::is_default(one)) by {
        if crate::layer::is_default(one) {
            assert(crate::partial_ord::less(one, one));
        }
    }
    assert(one.mul_spec(one.inv_spec()) == one);
    assert(one.mul_spec(one.inv_spec()) == one.inv_spec());
    assert(x.sub_spec(zero) == x);
    assert(x.mul_spec(one) == x);
}

/// `scalar_layer::normalize` of a layer whose least element is zero and whose greatest is
/// one yields the layer itself: where `output` holds what the function states of it, it
/// holds the elements of `source`.
pub proof fn lemma_normalize_unit_range_is_identity<T>(source: Seq<T>, output: Seq<T>) where
    T: Default + PartialOrd + Add<Output = T> + Sub<Output = T> + Mul<Output = T> + Inv + One
        + crate::bounded::Bounded,

    requires
        obeys_field_laws::<T>(),
        crate::layer::is_default(crate::scalar_layer::min_of(source)),
        crate::scalar_layer::max_of(source) == T::one_spec(),
        output.len() == source.len(),
        forall|i: int|
            0 <= i < source.len() ==> #[trigger] output[i] == crate::layer::statistics::normalized(
                source[i],
                crate::scalar_layer::min_of(source),
                crate::layer::statistics::normalize_factor(
                    crate::scalar_layer::min_of(source),
                    crate::scalar_layer::max_of(source),
                ),
            ),
    ensures
        output == source,
{
    assert forall|i: int| 0 <= i < source.len() implies output[i] == source[i] by {
        lemma_normalized_in_unit_range(source[i], crate::scalar_layer::min_of(source));
    }
    assert(output =~= source);
}

/// `Layer::normalize` of a layer whose least element reads as zero and whose greatest reads
/// as one yields the layer itself: where `output` holds what the function states of it for
/// the extremes `lo` and `hi`, it holds the elements of `source`. The numbers `U` obey the
/// laws of a field, and subtracting their zero from an element or multiplying an element by
/// their one changes nothing.
pub proof fn lemma_layer_normalize_unit_range_is_identity<T, U>(
    source: Seq<T>,
    output: Seq<T>,
    lo: T,
    hi: T,
) where
    T: Default + Sub<U, Output = T> + Mul<U, Output = T> + crate::to_numeric::ToNumeric<U>,
    U: Default + PartialOrd + Add<Output = U> + Sub<Output = U> + Mul<Output = U> + Inv + One
        + crate::bounded::Bounded,

    requires
        obeys_field_laws::<U>(),
        forall|x: T, zero: U| crate::layer::is_default(zero) ==> #[trigger] x.sub_spec(zero) == x,
        forall|x: T| #[trigger] x.mul_spec(U::one_spec()) == x,
        crate::layer::statistics::is_min_max::<T, U>(source, lo, hi),
        crate::layer::is_default(lo.numeric_spec()),
        hi.numeric_spec() == U::one_spec(),
        output.len() == source.len(),
        forall|i: int|
            0 <= i < source.len() ==> #[trigger] output[i] == crate::layer::statistics::normalized(
                source[i],
                lo.numeric_spec(),
                crate::layer::statistics::normalize_factor(lo.numeric_spec(), hi.numeric_spec()),
            ),
    ensures
        output == source,
{
    let zero = lo.numeric_spec();
    let one = U::one_spec();
    assert(one.sub_spec(zero) == one);
    assert(!crate::layer::is_default(one)) by {
        if crate::layer::is_default(one) {
            assert(crate::partial_ord::less(one, one));
        }
    }
    assert(one.mul_spec(one.inv_spec()) == one);
    assert(one.mul_spec(one.inv_spec()) == one.inv_spec());
    assert forall|i: int| 0 <= i < source.len() implies output[i] == source[i] by {
        assert(source[i].sub_spec(zero) == source[i]);
        assert(source[i].mul_spec(one) == source[i]);
    }
    assert(output =~= source);
}

/// Whether the arithmetic of `T` obeys, beside `obeys_field_laws`, the laws of division and
/// of addition that rescaling there and back rests on.
#[verifier::opaque]
pub open spec fn obeys_division_laws<T>() -> bool where
    T: Default + PartialOrd + Add<Output = T> + Sub<Output = T> + Mul<Output = T> + Div<
        Output = T,
    > + Inv + One,
 {
    &&& obeys_field_laws::<T>()
    &&& forall|x: T, y: T| #[trigger] x.add_spec(y).sub_spec(y) == x
    &&& forall|x: T, y: T| #[trigger] x.sub_spec(y).add_spec(y) == x
    &&& forall|zero: T, x: T| crate::layer::is_default(zero) ==> #[trigger] zero.add_spec(x) == x
    &&& forall|x: T, y: T, z: T| #[trigger] x.mul_spec(y).mul_spec(z) == x.mul_spec(y.mul_spec(z))
    &&& forall|x: T, y: T|
        !crate::layer::is_default(y) ==> #[trigger] y.mul_spec(x.div_spec(y)) == x
    &&& forall|x: T, y: T|
        !crate::layer::is_default(x) && !crate::layer::is_default(y) ==> #[trigger] x.div_spec(
            y,
        ).mul_spec(y.div_spec(x)) == T::one_spec()
    &&& forall|zero: T, x: T, y: T|
        #![trigger crate::layer::is_default(zero), x.div_spec(y)]
        crate::layer::is_default(zero) && crate::partial_ord::less(zero, x)
            && crate::partial_ord::less(zero, y) ==> crate::partial_ord::less(zero, x.div_spec(y))
    &&& forall|x: T, y: T, z: T|
        crate::partial_ord::less(x, y) ==> crate::partial_ord::less(
            #[trigger] x.add_spec(z),
            #[trigger] y.add_spec(z),
        )
}

/// The laws of the order, for three given values.
proof fn lemma_order_at<T>(a: T, b: T, c: T) where
    T: Default + PartialOrd + Add<Output = T> + Sub<Output = T> + Mul<Output = T> + Div<
        Output = T,
    > + Inv + One,

    requires
        obeys_division_laws::<T>(),
    ensures
        !crate::partial_ord::less(a, a),
        crate::partial_ord::less(a, b) || crate::partial_ord::less(b, a) || a == b,
        crate::partial_ord::less(a, b) && crate::partial_ord::less(b, c)
            ==> crate::partial_ord::less(a, c),
        crate::partial_ord::less(a, b) ==> !crate::partial_ord::less(b, a),
{
    reveal(obeys_division_laws);
    if crate::partial_ord::less(a, b) && crate::partial_ord::less(b, a) {
        assert(crate::partial_ord::less(a, a));
    }
}

/// The laws of a positive difference `d = upper - m`, for given values.
proof fn lemma_difference_at<T>(zero: T, m: T, upper: T) where
    T: Default + PartialOrd + Add<Output = T> + Sub<Output = T> + Mul<Output = T> + Div<
        Output = T,
    > + Inv + One,

    requires
        obeys_division_laws::<T>(),
        crate::layer::is_default(zero),
        crate::partial_ord::less(m, upper),
    ensures
        crate::partial_ord::less(zero, upper.sub_spec(m)),
        !crate::layer::is_default(upper.sub_spec(m)),
        m.sub_spec(m) == zero,
        upper.sub_spec(m).add_spec(m) == upper,
{
    reveal(obeys_division_laws);
    let d = upper.sub_spec(m);
    assert(m.sub_spec(m) == zero);
    assert(crate::partial_ord::less(m.sub_spec(m), d));
    if crate::layer::is_default(d) {
        assert(d.sub_spec(d) == zero);
        assert(d.sub_spec(d) == d);
        assert(!crate::partial_ord::less(d, d));
    }
}

/// The laws of the factor `f = e / d` of two positive numbers, for given values.
proof fn lemma_factor_at<T>(zero: T, d: T, e: T) where
    T: Default + PartialOrd + Add<Output = T> + Sub<Output = T> + Mul<Output = T> + Div<
        Output = T,
    > + Inv + One,

    requires
        obeys_division_laws::<T>(),
        crate::layer::is_default(zero),
        crate::partial_ord::less(zero, d),
        crate::partial_ord::less(zero, e),
        !crate::layer::is_default(d),
        !crate::layer::is_default(e),
    ensures
        crate::partial_ord::less(zero, e.div_spec(d)),
        d.mul_spec(e.div_spec(d)) == e,
        zero.mul_spec(e.div_spec(d)) == zero,
        e.div_spec(d).mul_spec(d.div_spec(e)) == T::one_spec(),
{
    reveal(obeys_division_laws);
    let f = e.div_spec(d);
    assert(crate::partial_ord::less(zero, f));
    assert(d.mul_spec(f) == e);
    assert(zero.mul_spec(f) == zero);
    assert(f.mul_spec(d.div_spec(e)) == T::one_spec());
}

/// Multiplying by a positive factor and adding a number keep the order, for given values.
proof fn lemma_scaled_order_at<T>(zero: T, x: T, y: T, f: T, lo: T) where
    T: Default + PartialOrd + Add<Output = T> + Sub<Output = T> + Mul<Output = T> + Div<
        Output = T,
    > + Inv + One,

    requires
        obeys_division_laws::<T>(),
        crate::layer::is_default(zero),
        crate::partial_ord::less(zero, f),
        crate::partial_ord::less(x, y),
    ensures
        crate::partial_ord::less(x.mul_spec(f).add_spec(lo), y.mul_spec(f).add_spec(lo)),
{
    reveal(obeys_division_laws);
    assert(crate::partial_ord::less(x.mul_spec(f), y.mul_spec(f)));
    assert(crate::partial_ord::less(x.mul_spec(f).add_spec(lo), y.mul_spec(f).add_spec(lo)));
}

/// Subtracting a number keeps the order, and adding to zero changes nothing, for given
/// values.
proof fn lemma_shifted_order_at<T>(zero: T, x: T, y: T, m: T, lo: T) where
    T: Default + PartialOrd + Add<Output = T> + Sub<Output = T> + Mul<Output = T> + Div<
        Output = T,
    > + Inv + One,

    requires
        obeys_division_laws::<T>(),
        crate::layer::is_default(zero),
    ensures
        crate::partial_ord::less(x, y) ==> crate::partial_ord::less(x.sub_spec(m), y.sub_spec(m)),
        zero.add_spec(lo) == lo,
        x.sub_spec(m).add_spec(m) == x,
{
    reveal(obeys_division_laws);
    if crate::partial_ord::less(x, y) {
        assert(crate::partial_ord::less(x.sub_spec(m), y.sub_spec(m)));
    }
    assert(zero.add_spec(lo) == lo);
    assert(x.sub_spec(m).add_spec(m) == x);
}

/// Undoing a scaled and shifted value, for given values: `((u * f + lo) - lo) * g + m`
/// is `u + m` where `f * g` is one.
proof fn lemma_undo_at<T>(u: T, f: T, g: T, lo: T, m: T) where
    T: Default + PartialOrd + Add<Output = T> + Sub<Output = T> + Mul<Output = T> + Div<
        Output = T,
    > + Inv + One,

    requires
        obeys_division_laws::<T>(),
        f.mul_spec(g) == T::one_spec(),
    ensures
        u.mul_spec(f).add_spec(lo).sub_spec(lo).mul_spec(g).add_spec(m) == u.add_spec(m),
{
    reveal(obeys_division_laws);
    let v = u.mul_spec(f);
    assert(v.add_spec(lo).sub_spec(lo) == v);
    assert(v.mul_spec(g) == u.mul_spec(f.mul_spec(g)));
    assert(u.mul_spec(T::one_spec()) == u);
}

/// The image of a value between `m` and `upper` under the rescaling of `[m, upper]` to
/// `[lo, hi]` lies between `lo` and `hi`; the image of `m` is `lo`, and that of `upper` is
/// `hi`.
pub proof fn lemma_rescaled_stays_in_range<T>(x: T, m: T, upper: T, lo: T, hi: T) where
    T: Default + PartialOrd + Add<Output = T> + Sub<Output = T> + Mul<Output = T> + Div<
        Output = T,
    > + Inv + One,

    requires
        obeys_division_laws::<T>(),
        exists|zero: T| crate::layer::is_default(zero),
        crate::partial_ord::less(m, upper),
        crate::partial_ord::less(lo, hi),
        !crate::partial_ord::less(x, m),
        !crate::partial_ord::less(upper, x),
    ensures
        ({
            let image = crate::layer::statistics::rescaled(
                x,
                m,
                crate::layer::statistics::rescale_factor(m, upper, lo, hi),
                lo,
            );
            &&& !crate::partial_ord::less(image, lo)
            &&& !crate::partial_ord::less(hi, image)
            &&& x == m ==> image == lo
            &&& x == upper ==> image == hi
        }),
{
    let zero = choose|zero: T| crate::layer::is_default(zero);
    let d = upper.sub_spec(m);
    let e = hi.sub_spec(lo);
    let f = e.div_spec(d);
    let u = x.sub_spec(m);
    let image = u.mul_spec(f).add_spec(lo);
    lemma_difference_at(zero, m, upper);
    lemma_difference_at(zero, lo, hi);
    lemma_factor_at(zero, d, e);
    lemma_shifted_order_at(zero, m, x, m, lo);
    lemma_shifted_order_at(zero, x, upper, m, lo);
    lemma_order_at(m, x, upper);
    lemma_order_at(x, upper, upper);
    lemma_order_at(lo, hi, hi);
    lemma_order_at(hi, lo, lo);
    if x == m {
        assert(image == lo);
    } else {
        lemma_scaled_order_at(zero, zero, u, f, lo);
        lemma_order_at(lo, image, image);
    }
    if x == upper {
        assert(image == hi);
    } else {
        lemma_scaled_order_at(zero, u, d, f, lo);
        lemma_order_at(image, hi, hi);
    }
}

/// Rescaling a value from `[m, upper]` to `[lo, hi]` and back reproduces it, where neither
/// range is a single point.
pub proof fn lemma_rescaled_there_and_back<T>(x: T, m: T, upper: T, lo: T, hi: T) where
    T: Default + PartialOrd + Add<Output = T> + Sub<Output = T> + Mul<Output = T> + Div<
        Output = T,
    > + Inv + One,

    requires
        obeys_division_laws::<T>(),
        exists|zero: T| crate::layer::is_default(zero),
        crate::partial_ord::less(m, upper),
        crate::partial_ord::less(lo, hi),
    ensures
        crate::layer::statistics::rescaled(
            crate::layer::statistics::rescaled(
                x,
                m,
                crate::layer::statistics::rescale_factor(m, upper, lo, hi),
                lo,
            ),
            lo,
            crate::layer::statistics::rescale_factor(lo, hi, m, upper),
            m,
        ) == x,
{
    let zero = choose|zero: T| crate::layer::is_default(zero);
    let d = upper.sub_spec(m);
    let e = hi.sub_spec(lo);
    lemma_difference_at(zero, m, upper);
    lemma_difference_at(zero, lo, hi);
    lemma_factor_at(zero, d, e);
    lemma_undo_at(x.sub_spec(m), e.div_spec(d), d.div_spec(e), lo, m);
    lemma_shifted_order_at(zero, x, x, m, lo);
}

/// Where every element lies strictly inside the sentinels, the scans of a sequence that is
/// not empty end at a least and at a greatest element.
proof fn lemma_scans_inside_sentinels<T>(keys: Seq<T>) where
    T: Default + PartialOrd + Add<Output = T> + Sub<Output = T> + Mul<Output = T> + Div<
        Output = T,
    > + Inv + One + crate::bounded::Bounded,

    requires
        obeys_division_laws::<T>(),
        keys.len() > 0,
        forall|i: int|
            0 <= i < keys.len() ==> crate::partial_ord::less(T::MIN_BOUND, #[trigger] keys[i])
                && crate::partial_ord::less(keys[i], T::MAX_BOUND),
    ensures
        ({
            let j = crate::layer::statistics::index_found(
                crate::layer::statistics::running_min(keys, T::MAX_BOUND, keys.len() as int),
            );
            &&& 0 <= j < keys.len()
            &&& forall|i: int|
                0 <= i < keys.len() ==> !crate::partial_ord::less(#[trigger] keys[i], keys[j])
        }),
        ({
            let j = crate::layer::statistics::index_found(
                crate::layer::statistics::running_max(keys, T::MIN_BOUND, keys.len() as int),
            );
            &&& 0 <= j < keys.len()
            &&& forall|i: int|
                0 <= i < keys.len() ==> !crate::partial_ord::less(keys[j], #[trigger] keys[i])
        }),
{
    reveal(obeys_division_laws);
    let n = keys.len() as int;
    crate::layer::statistics::lemma_running_min_is_first_least(keys, T::MAX_BOUND, n);
    crate::layer::statistics::lemma_running_max_is_first_greatest(keys, T::MIN_BOUND, n);
    assert(crate::partial_ord::less(keys[0], T::MAX_BOUND));
    assert(crate::partial_ord::less(T::MIN_BOUND, keys[0]));
}

/// Rescaling a layer to the range `[lo, hi]` and rescaling the result to the range of the
/// layer reproduces the layer: where `there` holds what `Layer::rescale_to_range` states of
/// it for `source`, and `back` holds what it states for `there`, `back` holds the elements
/// of `source`. The extremes of `there` are `lo` and `hi`.
///
/// The elements are numbers that read as themselves and obey the laws of a field; they and
/// the target range lie strictly inside the sentinels; and neither the layer nor the target
/// range is a single point.
pub proof fn lemma_rescale_round_trip<T>(
    source: Seq<T>,
    there: Seq<T>,
    back: Seq<T>,
    lo: T,
    hi: T,
    least: T,
    greatest: T,
    there_least: T,
    there_greatest: T,
) where
    T: Default + PartialOrd + Add<Output = T> + Sub<Output = T> + Mul<Output = T> + Div<
        Output = T,
    > + Inv + One + crate::bounded::Bounded + crate::to_numeric::ToNumeric<T>,

    requires
        obeys_division_laws::<T>(),
        exists|zero: T| crate::layer::is_default(zero),
        forall|x: T| #[trigger] x.numeric_spec() == x,
        forall|x: T| #[trigger] x.numeric_proportional_spec() == x,
        source.len() > 0,
        there.len() == source.len(),
        back.len() == source.len(),
        forall|i: int|
            0 <= i < source.len() ==> crate::partial_ord::less(T::MIN_BOUND, #[trigger] source[i])
                && crate::partial_ord::less(source[i], T::MAX_BOUND),
        crate::partial_ord::less(T::MIN_BOUND, lo),
        crate::partial_ord::less(lo, hi),
        crate::partial_ord::less(hi, T::MAX_BOUND),
        crate::layer::statistics::is_min_max::<T, T>(source, least, greatest),
        crate::partial_ord::less(least, greatest),
        forall|i: int|
            0 <= i < source.len() ==> #[trigger] there[i] == crate::layer::statistics::rescaled(
                source[i],
                least,
                crate::layer::statistics::rescale_factor(least, greatest, lo, hi),
                lo,
            ),
        crate::layer::statistics::is_min_max::<T, T>(there, there_least, there_greatest),
        forall|i: int|
            0 <= i < source.len() ==> #[trigger] back[i] == crate::layer::statistics::rescaled(
                there[i],
                there_least,
                crate::layer::statistics::rescale_factor(
                    there_least,
                    there_greatest,
                    least,
                    greatest,
                ),
                least,
            ),
    ensures
        there_least == lo,
        there_greatest == hi,
        back == source,
{
    let n = source.len() as int;
    assert(crate::layer::statistics::keys_of::<T, T>(source) =~= source);
    assert(crate::layer::statistics::keys_of::<T, T>(there) =~= there);
    lemma_scans_inside_sentinels(source);
    let a = crate::layer::statistics::index_found(
        crate::layer::statistics::running_min(source, T::MAX_BOUND, n),
    );
    let b = crate::layer::statistics::index_found(
        crate::layer::statistics::running_max(source, T::MIN_BOUND, n),
    );
    assert(least == source[a] && greatest == source[b]);
    assert forall|i: int| 0 <= i < n implies {
        &&& !crate::partial_ord::less(#[trigger] there[i], lo)
        &&& !crate::partial_ord::less(hi, there[i])
        &&& crate::partial_ord::less(T::MIN_BOUND, there[i])
        &&& crate::partial_ord::less(there[i], T::MAX_BOUND)
    } by {
        assert(!crate::partial_ord::less(source[i], source[a]));
        assert(!crate::partial_ord::less(source[b], source[i]));
        lemma_rescaled_stays_in_range(source[i], least, greatest, lo, hi);
        lemma_order_at(lo, there[i], T::MAX_BOUND);
        lemma_order_at(there[i], hi, T::MAX_BOUND);
        lemma_order_at(T::MIN_BOUND, lo, there[i]);
    }
    lemma_order_at(source[a], source[a], source[a]);
    lemma_order_at(source[b], source[b], source[b]);
    lemma_rescaled_stays_in_range(source[a], least, greatest, lo, hi);
    lemma_rescaled_stays_in_range(source[b], least, greatest, lo, hi);
    assert(there[a] == lo && there[b] == hi);
    lemma_scans_inside_sentinels(there);
    let c = crate::layer::statistics::index_found(
        crate::layer::statistics::running_min(there, T::MAX_BOUND, n),
    );
    let d = crate::layer::statistics::index_found(
        crate::layer::statistics::running_max(there, T::MIN_BOUND, n),
    );
    assert(there_least == there[c] && there_greatest == there[d]);
    assert(!crate::partial_ord::less(there[a], there[c]));
    assert(!crate::partial_ord::less(there[c], lo));
    lemma_order_at(lo, there[c], there[c]);
    assert(!crate::partial_ord::less(there[d], there[b]));
    assert(!crate::partial_ord::less(hi, there[d]));
    lemma_order_at(hi, there[d], there[d]);
    assert(there_least == lo && there_greatest == hi);
    assert forall|i: int| 0 <= i < n implies back[i] == source[i] by {
        lemma_rescaled_there_and_back(source[i], least, greatest, lo, hi);
    }
    assert(back =~= source);
}

} // verus!
