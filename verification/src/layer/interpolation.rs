//! The interpolation functions, applied to every element of a layer.
//!
//! Each function comes in four shapes: either bound may be a constant (`value`) or vary
//! by index (`layer`).

use crate::e_x::EX;
use crate::interpolations::{
    clamp, linearstep, linearstep_inv, mix, smoothstep, smoothstep2, smoothstep2_neg,
    smoothstep_inv, step,
};
use crate::inv::Inv;
use crate::layer::Layer;
use crate::one::One;
use core::ops::{Add, Mul, Neg, Sub};
use vstd::prelude::*;
use vstd::std_specs::ops::{AddSpec, MulSpec, NegSpec, SubSpec};

verus! {

impl<T: Copy + Default> Layer<T> {
    /// `output[i] = self[i] * (w - v) + v`
    pub fn mix_value_value(&self, v: T, w: T, output: &mut Self) where
        T: Mul<Output = T> + Add<Output = T> + Sub<Output = T>,
        requires
            old(output)@.len() >= self@.len(),
            <T as SubSpec<T>>::obeys_sub_spec(),
            <T as MulSpec<T>>::obeys_mul_spec(),
            forall|i: int|
                #![trigger self@[i]]
                0 <= i < self@.len() ==> crate::interpolations::mix_req(self@[i], v, w),
        ensures
            super::kept_from(old(output)@, final(output)@, self@.len()),
            forall|i: int|
                0 <= i < self@.len() ==>
                    crate::interpolations::mix_returns(
                        self@[i],
                        v,
                        w,
                        #[trigger] final(output)@[i],
                    ),
            <T as AddSpec<T>>::obeys_add_spec() ==> forall|i: int|
                0 <= i < self@.len() ==>
                    #[trigger] final(output)@[i] == crate::interpolations::mix_spec(self@[i], v, w),
    {
        self.map1(output,
            |s_i: T| -> (r: T)
                requires
                    <T as SubSpec<T>>::obeys_sub_spec(),
                    <T as MulSpec<T>>::obeys_mul_spec(),
                    crate::interpolations::mix_req(s_i, v, w),
                ensures
                    crate::interpolations::mix_returns(s_i, v, w, r),
                    <T as AddSpec<T>>::obeys_add_spec() ==>
                        r == crate::interpolations::mix_spec(s_i, v, w),
                { mix(s_i, v, w) }
        );
    }

    /// `output[i] = self[i] * (layer_c[i] - v) + v`
    pub fn mix_value_layer(&self, v: T, layer_c: &Self, output: &mut Self) where
        T: Mul<Output = T> + Add<Output = T> + Sub<Output = T>,
        requires
            old(output)@.len() >= super::shortest2(self@.len(), layer_c@.len()),
            <T as SubSpec<T>>::obeys_sub_spec(),
            <T as MulSpec<T>>::obeys_mul_spec(),
            forall|i: int|
                #![trigger self@[i]]
                0 <= i < super::shortest2(self@.len(), layer_c@.len()) ==>
                    crate::interpolations::mix_req(self@[i], v, layer_c@[i]),
        ensures
            super::kept_from(
                old(output)@,
                final(output)@,
                super::shortest2(self@.len(), layer_c@.len()),
            ),
            forall|i: int|
                0 <= i < super::shortest2(self@.len(), layer_c@.len()) ==>
                    crate::interpolations::mix_returns(
                        self@[i],
                        v,
                        layer_c@[i],
                        #[trigger] final(output)@[i],
                    ),
            <T as AddSpec<T>>::obeys_add_spec() ==> forall|i: int|
                0 <= i < super::shortest2(self@.len(), layer_c@.len()) ==>
                    #[trigger] final(output)@[i] == crate::interpolations::mix_spec(
                        self@[i],
                        v,
                        layer_c@[i],
                    ),
    {
        self.map2(layer_c, output,
            |s_i: T, c_i: T| -> (r: T)
                requires
                    <T as SubSpec<T>>::obeys_sub_spec(),
                    <T as MulSpec<T>>::obeys_mul_spec(),
                    crate::interpolations::mix_req(s_i, v, c_i),
                ensures
                    crate::interpolations::mix_returns(s_i, v, c_i, r),
                    <T as AddSpec<T>>::obeys_add_spec() ==>
                        r == crate::interpolations::mix_spec(s_i, v, c_i),
                { mix(s_i, v, c_i) }
        );
    }

    /// `output[i] = self[i] * (w - layer_b[i]) + layer_b[i]`
    pub fn mix_layer_value(&self, layer_b: &Self, w: T, output: &mut Self) where
        T: Mul<Output = T> + Add<Output = T> + Sub<Output = T>,
        requires
            old(output)@.len() >= super::shortest2(self@.len(), layer_b@.len()),
            <T as SubSpec<T>>::obeys_sub_spec(),
            <T as MulSpec<T>>::obeys_mul_spec(),
            forall|i: int|
                #![trigger self@[i]]
                0 <= i < super::shortest2(self@.len(), layer_b@.len()) ==>
                    crate::interpolations::mix_req(self@[i], layer_b@[i], w),
        ensures
            super::kept_from(
                old(output)@,
                final(output)@,
                super::shortest2(self@.len(), layer_b@.len()),
            ),
            forall|i: int|
                0 <= i < super::shortest2(self@.len(), layer_b@.len()) ==>
                    crate::interpolations::mix_returns(
                        self@[i],
                        layer_b@[i],
                        w,
                        #[trigger] final(output)@[i],
                    ),
            <T as AddSpec<T>>::obeys_add_spec() ==> forall|i: int|
                0 <= i < super::shortest2(self@.len(), layer_b@.len()) ==>
                    #[trigger] final(output)@[i] == crate::interpolations::mix_spec(
                        self@[i],
                        layer_b@[i],
                        w,
                    ),
    {
        self.map2(layer_b, output,
            |s_i: T, b_i: T| -> (r: T)
                requires
                    <T as SubSpec<T>>::obeys_sub_spec(),
                    <T as MulSpec<T>>::obeys_mul_spec(),
                    crate::interpolations::mix_req(s_i, b_i, w),
                ensures
                    crate::interpolations::mix_returns(s_i, b_i, w, r),
                    <T as AddSpec<T>>::obeys_add_spec() ==>
                        r == crate::interpolations::mix_spec(s_i, b_i, w),
                { mix(s_i, b_i, w) }
        );
    }

    /// `output[i] = self[i] * (layer_c[i] - layer_b[i]) + layer_b[i]`
    pub fn mix_layer_layer(&self, layer_b: &Self, layer_c: &Self, output: &mut Self) where
        T: Mul<Output = T> + Add<Output = T> + Sub<Output = T>,
        requires
            old(output)@.len() >= super::shortest3(self@.len(), layer_b@.len(), layer_c@.len()),
            <T as SubSpec<T>>::obeys_sub_spec(),
            <T as MulSpec<T>>::obeys_mul_spec(),
            forall|i: int|
                #![trigger self@[i]]
                0 <= i < super::shortest3(self@.len(), layer_b@.len(), layer_c@.len()) ==>
                    crate::interpolations::mix_req(self@[i], layer_b@[i], layer_c@[i]),
        ensures
            super::kept_from(
                old(output)@,
                final(output)@,
                super::shortest3(self@.len(), layer_b@.len(), layer_c@.len()),
            ),
            forall|i: int|
                0 <= i < super::shortest3(self@.len(), layer_b@.len(), layer_c@.len()) ==>
                    crate::interpolations::mix_returns(
                        self@[i],
                        layer_b@[i],
                        layer_c@[i],
                        #[trigger] final(output)@[i],
                    ),
            <T as AddSpec<T>>::obeys_add_spec() ==> forall|i: int|
                0 <= i < super::shortest3(self@.len(), layer_b@.len(), layer_c@.len()) ==>
                    #[trigger] final(output)@[i] == crate::interpolations::mix_spec(
                        self@[i],
                        layer_b@[i],
                        layer_c@[i],
                    ),
    {
        self.map3(layer_b, layer_c, output,
            |s_i: T, b_i: T, c_i: T| -> (r: T)
                requires
                    <T as SubSpec<T>>::obeys_sub_spec(),
                    <T as MulSpec<T>>::obeys_mul_spec(),
                    crate::interpolations::mix_req(s_i, b_i, c_i),
                ensures
                    crate::interpolations::mix_returns(s_i, b_i, c_i, r),
                    <T as AddSpec<T>>::obeys_add_spec() ==>
                        r == crate::interpolations::mix_spec(s_i, b_i, c_i),
                { mix(s_i, b_i, c_i) }
        );
    }

    /// `output[i]` is `self[i]`, held between `v` and `w`.
    pub fn clamp_value_value(&self, v: T, w: T, output: &mut Self) where
        T: PartialOrd,
        requires
            old(output)@.len() >= self@.len(),
        ensures
            super::kept_from(old(output)@, final(output)@, self@.len()),
            forall|i: int|
                0 <= i < self@.len() ==>
                    crate::interpolations::clamp_returns(
                        self@[i],
                        v,
                        w,
                        #[trigger] final(output)@[i],
                    ),
            crate::partial_ord::obeys_order::<T>() ==> forall|i: int|
                0 <= i < self@.len() ==>
                    #[trigger] final(output)@[i] == crate::interpolations::clamp_spec(
                        self@[i],
                        v,
                        w,
                    ),
    {
        self.map1(output,
            |s_i: T| -> (r: T)
                ensures
                    crate::interpolations::clamp_returns(s_i, v, w, r),
                    crate::partial_ord::obeys_order::<T>() ==>
                        r == crate::interpolations::clamp_spec(s_i, v, w),
                { clamp(s_i, v, w) }
        );
    }

    /// `output[i]` is `self[i]`, held between `v` and `layer_c[i]`.
    pub fn clamp_value_layer(&self, v: T, layer_c: &Self, output: &mut Self) where
        T: PartialOrd,
        requires
            old(output)@.len() >= super::shortest2(self@.len(), layer_c@.len()),
        ensures
            super::kept_from(
                old(output)@,
                final(output)@,
                super::shortest2(self@.len(), layer_c@.len()),
            ),
            forall|i: int|
                0 <= i < super::shortest2(self@.len(), layer_c@.len()) ==>
                    crate::interpolations::clamp_returns(
                        self@[i],
                        v,
                        layer_c@[i],
                        #[trigger] final(output)@[i],
                    ),
            crate::partial_ord::obeys_order::<T>() ==> forall|i: int|
                0 <= i < super::shortest2(self@.len(), layer_c@.len()) ==>
                    #[trigger] final(output)@[i] == crate::interpolations::clamp_spec(
                        self@[i],
                        v,
                        layer_c@[i],
                    ),
    {
        self.map2(layer_c, output,
            |s_i: T, c_i: T| -> (r: T)
                ensures
                    crate::interpolations::clamp_returns(s_i, v, c_i, r),
                    crate::partial_ord::obeys_order::<T>() ==>
                        r == crate::interpolations::clamp_spec(s_i, v, c_i),
                { clamp(s_i, v, c_i) }
        );
    }

    /// `output[i]` is `self[i]`, held between `layer_b[i]` and `w`.
    pub fn clamp_layer_value(&self, layer_b: &Self, w: T, output: &mut Self) where
        T: PartialOrd,
        requires
            old(output)@.len() >= super::shortest2(self@.len(), layer_b@.len()),
        ensures
            super::kept_from(
                old(output)@,
                final(output)@,
                super::shortest2(self@.len(), layer_b@.len()),
            ),
            forall|i: int|
                0 <= i < super::shortest2(self@.len(), layer_b@.len()) ==>
                    crate::interpolations::clamp_returns(
                        self@[i],
                        layer_b@[i],
                        w,
                        #[trigger] final(output)@[i],
                    ),
            crate::partial_ord::obeys_order::<T>() ==> forall|i: int|
                0 <= i < super::shortest2(self@.len(), layer_b@.len()) ==>
                    #[trigger] final(output)@[i] == crate::interpolations::clamp_spec(
                        self@[i],
                        layer_b@[i],
                        w,
                    ),
    {
        self.map2(layer_b, output,
            |s_i: T, b_i: T| -> (r: T)
                ensures
                    crate::interpolations::clamp_returns(s_i, b_i, w, r),
                    crate::partial_ord::obeys_order::<T>() ==>
                        r == crate::interpolations::clamp_spec(s_i, b_i, w),
                { clamp(s_i, b_i, w) }
        );
    }

    /// `output[i]` is `self[i]`, held between `layer_b[i]` and `layer_c[i]`.
    pub fn clamp_layer_layer(&self, layer_b: &Self, layer_c: &Self, output: &mut Self) where
        T: PartialOrd,
        requires
            old(output)@.len() >= super::shortest3(self@.len(), layer_b@.len(), layer_c@.len()),
        ensures
            super::kept_from(
                old(output)@,
                final(output)@,
                super::shortest3(self@.len(), layer_b@.len(), layer_c@.len()),
            ),
            forall|i: int|
                0 <= i < super::shortest3(self@.len(), layer_b@.len(), layer_c@.len()) ==>
                    crate::interpolations::clamp_returns(
                        self@[i],
                        layer_b@[i],
                        layer_c@[i],
                        #[trigger] final(output)@[i],
                    ),
            crate::partial_ord::obeys_order::<T>() ==> forall|i: int|
                0 <= i < super::shortest3(self@.len(), layer_b@.len(), layer_c@.len()) ==>
                    #[trigger] final(output)@[i] == crate::interpolations::clamp_spec(
                        self@[i],
                        layer_b@[i],
                        layer_c@[i],
                    ),
    {
        self.map3(layer_b, layer_c, output,
            |s_i: T, b_i: T, c_i: T| -> (r: T)
                ensures
                    crate::interpolations::clamp_returns(s_i, b_i, c_i, r),
                    crate::partial_ord::obeys_order::<T>() ==>
                        r == crate::interpolations::clamp_spec(s_i, b_i, c_i),
                { clamp(s_i, b_i, c_i) }
        );
    }

    /// `output[i]` is one if `self[i]` is greater than `value`, else zero.
    pub fn step_value(&self, value: T, output: &mut Self) where
        T: PartialOrd + One,
        requires
            old(output)@.len() >= self@.len(),
        ensures
            super::kept_from(old(output)@, final(output)@, self@.len()),
            forall|i: int|
                0 <= i < self@.len() ==>
                    crate::interpolations::step_returns(
                        self@[i],
                        value,
                        #[trigger] final(output)@[i],
                    ),
            crate::partial_ord::obeys_order::<T>() ==> forall|i: int|
                0 <= i < self@.len() ==>
                    crate::interpolations::is_step(self@[i], value, #[trigger] final(output)@[i]),
    {
        self.map1_with(value, output,
            |s_i: T, v: T| -> (r: T)
                ensures
                    crate::interpolations::step_returns(s_i, v, r),
                    crate::partial_ord::obeys_order::<T>() ==>
                        crate::interpolations::is_step(s_i, v, r),
                { step(s_i, v) }
        );
    }

    /// `output[i]` is one if `self[i]` is greater than `layer_b[i]`, else zero.
    pub fn step_layer(&self, layer_b: &Self, output: &mut Self) where
        T: PartialOrd + One,
        requires
            old(output)@.len() >= super::shortest2(self@.len(), layer_b@.len()),
        ensures
            super::kept_from(
                old(output)@,
                final(output)@,
                super::shortest2(self@.len(), layer_b@.len()),
            ),
            forall|i: int|
                0 <= i < super::shortest2(self@.len(), layer_b@.len()) ==>
                    crate::interpolations::step_returns(
                        self@[i],
                        layer_b@[i],
                        #[trigger] final(output)@[i],
                    ),
            crate::partial_ord::obeys_order::<T>() ==> forall|i: int|
                0 <= i < super::shortest2(self@.len(), layer_b@.len()) ==>
                    crate::interpolations::is_step(
                        self@[i],
                        layer_b@[i],
                        #[trigger] final(output)@[i],
                    ),
    {
        self.map2(layer_b, output,
            |s_i: T, b_i: T| -> (r: T)
                ensures
                    crate::interpolations::step_returns(s_i, b_i, r),
                    crate::partial_ord::obeys_order::<T>() ==>
                        crate::interpolations::is_step(s_i, b_i, r),
                { step(s_i, b_i) }
        );
    }

    /// `output[i]` is the linear step of `self[i]` between `value_a` and `value_b`:
    /// `(self[i] - value_a) / (value_b - value_a)`, clamped between zero and one.
    ///
    /// The inverse of the step's length is taken once, also where the layer is empty.
    pub fn linearstep_value_value(&self, value_a: T, value_b: T, output: &mut Self) where
        T: PartialOrd + Mul<Output = T> + Sub<Output = T> + Inv + One,
        requires
            old(output)@.len() >= self@.len(),
            <T as SubSpec<T>>::obeys_sub_spec(),
            value_b.sub_req(value_a),
            value_b.sub_spec(value_a).inv_req(),
            forall|i: int|
                #![trigger self@[i]]
                0 <= i < self@.len() ==>
                    crate::interpolations::ratio_req(self@[i], value_a, value_b),
        ensures
            super::kept_from(old(output)@, final(output)@, self@.len()),
            forall|i: int|
                0 <= i < self@.len() ==>
                    crate::interpolations::linearstep_returns(
                        self@[i],
                        value_a,
                        value_b,
                        #[trigger] final(output)@[i],
                    ),
            <T as MulSpec<T>>::obeys_mul_spec() && crate::partial_ord::obeys_order::<T>() ==>
                forall|i: int|
                0 <= i < self@.len() ==>
                    crate::interpolations::is_linearstep(
                        self@[i],
                        value_a,
                        value_b,
                        #[trigger] final(output)@[i],
                    ),
    {
        let inv_diff = (value_b - value_a).inv();
        self.map1(output,
            |s_i: T| -> (r: T)
                requires
                    <T as SubSpec<T>>::obeys_sub_spec(),
                    inv_diff == value_b.sub_spec(value_a).inv_spec(),
                    crate::interpolations::ratio_req(s_i, value_a, value_b),
                ensures
                    crate::interpolations::linearstep_returns(s_i, value_a, value_b, r),
                    <T as MulSpec<T>>::obeys_mul_spec()
                        && crate::partial_ord::obeys_order::<T>() ==>
                        crate::interpolations::is_linearstep(s_i, value_a, value_b, r),
                { linearstep_inv(s_i, value_a, inv_diff) }
        );
    }

    /// `output[i]` is the linear step of `self[i]` between `value_a` and `layer_c[i]`:
    /// `(self[i] - value_a) / (layer_c[i] - value_a)`, clamped between zero and one.
    pub fn linearstep_value_layer(&self, value_a: T, layer_c: &Self, output: &mut Self) where
        T: PartialOrd + Mul<Output = T> + Sub<Output = T> + Inv + One,
        requires
            old(output)@.len() >= super::shortest2(self@.len(), layer_c@.len()),
            <T as SubSpec<T>>::obeys_sub_spec(),
            forall|i: int|
                #![trigger self@[i]]
                0 <= i < super::shortest2(self@.len(), layer_c@.len()) ==>
                    crate::interpolations::ratio_req(self@[i], value_a, layer_c@[i]),
        ensures
            super::kept_from(
                old(output)@,
                final(output)@,
                super::shortest2(self@.len(), layer_c@.len()),
            ),
            forall|i: int|
                0 <= i < super::shortest2(self@.len(), layer_c@.len()) ==>
                    crate::interpolations::linearstep_returns(
                        self@[i],
                        value_a,
                        layer_c@[i],
                        #[trigger] final(output)@[i],
                    ),
            <T as MulSpec<T>>::obeys_mul_spec() && crate::partial_ord::obeys_order::<T>() ==>
                forall|i: int|
                0 <= i < super::shortest2(self@.len(), layer_c@.len()) ==>
                    crate::interpolations::is_linearstep(
                        self@[i],
                        value_a,
                        layer_c@[i],
                        #[trigger] final(output)@[i],
                    ),
    {
        self.map2(layer_c, output,
            |s_i: T, c_i: T| -> (r: T)
                requires
                    <T as SubSpec<T>>::obeys_sub_spec(),
                    crate::interpolations::ratio_req(s_i, value_a, c_i),
                ensures
                    crate::interpolations::linearstep_returns(s_i, value_a, c_i, r),
                    <T as MulSpec<T>>::obeys_mul_spec()
                        && crate::partial_ord::obeys_order::<T>() ==>
                        crate::interpolations::is_linearstep(s_i, value_a, c_i, r),
                { linearstep(s_i, value_a, c_i) }
        );
    }

    /// `output[i]` is the linear step of `self[i]` between `layer_b[i]` and `value_b`:
    /// `(self[i] - layer_b[i]) / (value_b - layer_b[i])`, clamped between zero and one.
    pub fn linearstep_layer_value(&self, layer_b: &Self, value_b: T, output: &mut Self) where
        T: PartialOrd + Mul<Output = T> + Sub<Output = T> + Inv + One,
        requires
            old(output)@.len() >= super::shortest2(self@.len(), layer_b@.len()),
            <T as SubSpec<T>>::obeys_sub_spec(),
            forall|i: int|
                #![trigger self@[i]]
                0 <= i < super::shortest2(self@.len(), layer_b@.len()) ==>
                    crate::interpolations::ratio_req(self@[i], layer_b@[i], value_b),
        ensures
            super::kept_from(
                old(output)@,
                final(output)@,
                super::shortest2(self@.len(), layer_b@.len()),
            ),
            forall|i: int|
                0 <= i < super::shortest2(self@.len(), layer_b@.len()) ==>
                    crate::interpolations::linearstep_returns(
                        self@[i],
                        layer_b@[i],
                        value_b,
                        #[trigger] final(output)@[i],
                    ),
            <T as MulSpec<T>>::obeys_mul_spec() && crate::partial_ord::obeys_order::<T>() ==>
                forall|i: int|
                0 <= i < super::shortest2(self@.len(), layer_b@.len()) ==>
                    crate::interpolations::is_linearstep(
                        self@[i],
                        layer_b@[i],
                        value_b,
                        #[trigger] final(output)@[i],
                    ),
    {
        self.map2(layer_b, output,
            |s_i: T, b_i: T| -> (r: T)
                requires
                    <T as SubSpec<T>>::obeys_sub_spec(),
                    crate::interpolations::ratio_req(s_i, b_i, value_b),
                ensures
                    crate::interpolations::linearstep_returns(s_i, b_i, value_b, r),
                    <T as MulSpec<T>>::obeys_mul_spec()
                        && crate::partial_ord::obeys_order::<T>() ==>
                        crate::interpolations::is_linearstep(s_i, b_i, value_b, r),
                { linearstep(s_i, b_i, value_b) }
        );
    }

    /// `output[i]` is the linear step of `self[i]` between `layer_b[i]` and `layer_c[i]`:
    /// `(self[i] - layer_b[i]) / (layer_c[i] - layer_b[i])`, clamped between zero and one.
    pub fn linearstep_layer_layer(&self, layer_b: &Self, layer_c: &Self, output: &mut Self) where
        T: PartialOrd + Mul<Output = T> + Sub<Output = T> + Inv + One,
        requires
            old(output)@.len() >= super::shortest3(self@.len(), layer_b@.len(), layer_c@.len()),
            <T as SubSpec<T>>::obeys_sub_spec(),
            forall|i: int|
                #![trigger self@[i]]
                0 <= i < super::shortest3(self@.len(), layer_b@.len(), layer_c@.len()) ==>
                    crate::interpolations::ratio_req(self@[i], layer_b@[i], layer_c@[i]),
        ensures
            super::kept_from(
                old(output)@,
                final(output)@,
                super::shortest3(self@.len(), layer_b@.len(), layer_c@.len()),
            ),
            forall|i: int|
                0 <= i < super::shortest3(self@.len(), layer_b@.len(), layer_c@.len()) ==>
                    crate::interpolations::linearstep_returns(
                        self@[i],
                        layer_b@[i],
                        layer_c@[i],
                        #[trigger] final(output)@[i],
                    ),
            <T as MulSpec<T>>::obeys_mul_spec() && crate::partial_ord::obeys_order::<T>() ==>
                forall|i: int|
                0 <= i < super::shortest3(self@.len(), layer_b@.len(), layer_c@.len()) ==>
                    crate::interpolations::is_linearstep(
                        self@[i],
                        layer_b@[i],
                        layer_c@[i],
                        #[trigger] final(output)@[i],
                    ),
    {
        self.map3(layer_b, layer_c, output,
            |s_i: T, b_i: T, c_i: T| -> (r: T)
                requires
                    <T as SubSpec<T>>::obeys_sub_spec(),
                    crate::interpolations::ratio_req(s_i, b_i, c_i),
                ensures
                    crate::interpolations::linearstep_returns(s_i, b_i, c_i, r),
                    <T as MulSpec<T>>::obeys_mul_spec()
                        && crate::partial_ord::obeys_order::<T>() ==>
                        crate::interpolations::is_linearstep(s_i, b_i, c_i, r),
                { linearstep(s_i, b_i, c_i) }
        );
    }

    /// `output[i]` is the smooth step of `self[i]` between `value_a` and `value_b`:
    /// `l * l * (3 - 2 * l)`, where `l` is the linear step.
    ///
    /// The inverse of the step's length is taken once, also where the layer is empty.
    pub fn smoothstep_value_value(&self, value_a: T, value_b: T, output: &mut Self) where
        T: PartialOrd + Mul<Output = T> + Sub<Output = T> + Add<Output = T> + Inv + One,
        requires
            old(output)@.len() >= self@.len(),
            <T as SubSpec<T>>::obeys_sub_spec(),
            <T as MulSpec<T>>::obeys_mul_spec(),
            <T as AddSpec<T>>::obeys_add_spec(),
            crate::partial_ord::obeys_order::<T>(),
            value_b.sub_req(value_a),
            value_b.sub_spec(value_a).inv_req(),
            forall|i: int|
                #![trigger self@[i]]
                0 <= i < self@.len() ==>
                    crate::interpolations::smoothstep_req(self@[i], value_a, value_b),
        ensures
            super::kept_from(old(output)@, final(output)@, self@.len()),
            forall|i: int|
                0 <= i < self@.len() ==>
                    crate::interpolations::is_smoothstep(
                        self@[i],
                        value_a,
                        value_b,
                        #[trigger] final(output)@[i],
                    ),
    {
        let inv_diff = (value_b - value_a).inv();
        self.map1(output,
            |s_i: T| -> (r: T)
                requires
                    <T as SubSpec<T>>::obeys_sub_spec(),
                    <T as MulSpec<T>>::obeys_mul_spec(),
                    <T as AddSpec<T>>::obeys_add_spec(),
                    crate::partial_ord::obeys_order::<T>(),
                    inv_diff == value_b.sub_spec(value_a).inv_spec(),
                    crate::interpolations::smoothstep_req(s_i, value_a, value_b),
                ensures
                    crate::interpolations::is_smoothstep(s_i, value_a, value_b, r),
                {
                    proof {
                        crate::interpolations::lemma_step_by_inverse(s_i, value_a, value_b);
                    }
                    smoothstep_inv(s_i, value_a, inv_diff)
                }
        );
    }

    /// `output[i]` is the smooth step of `self[i]` between `value_a` and `layer_c[i]`:
    /// `l * l * (3 - 2 * l)`, where `l` is the linear step.
    pub fn smoothstep_value_layer(&self, value_a: T, layer_c: &Self, output: &mut Self) where
        T: PartialOrd + Mul<Output = T> + Sub<Output = T> + Add<Output = T> + Inv + One,
        requires
            old(output)@.len() >= super::shortest2(self@.len(), layer_c@.len()),
            <T as SubSpec<T>>::obeys_sub_spec(),
            <T as MulSpec<T>>::obeys_mul_spec(),
            <T as AddSpec<T>>::obeys_add_spec(),
            crate::partial_ord::obeys_order::<T>(),
            forall|i: int|
                #![trigger self@[i]]
                0 <= i < super::shortest2(self@.len(), layer_c@.len()) ==>
                    crate::interpolations::smoothstep_req(self@[i], value_a, layer_c@[i]),
        ensures
            super::kept_from(
                old(output)@,
                final(output)@,
                super::shortest2(self@.len(), layer_c@.len()),
            ),
            forall|i: int|
                0 <= i < super::shortest2(self@.len(), layer_c@.len()) ==>
                    crate::interpolations::is_smoothstep(
                        self@[i],
                        value_a,
                        layer_c@[i],
                        #[trigger] final(output)@[i],
                    ),
    {
        self.map2(layer_c, output,
            |s_i: T, c_i: T| -> (r: T)
                requires
                    <T as SubSpec<T>>::obeys_sub_spec(),
                    <T as MulSpec<T>>::obeys_mul_spec(),
                    <T as AddSpec<T>>::obeys_add_spec(),
                    crate::partial_ord::obeys_order::<T>(),
                    crate::interpolations::smoothstep_req(s_i, value_a, c_i),
                ensures
                    crate::interpolations::is_smoothstep(s_i, value_a, c_i, r),
                { smoothstep(s_i, value_a, c_i) }
        );
    }

    /// `output[i]` is the smooth step of `self[i]` between `layer_b[i]` and `value_b`:
    /// `l * l * (3 - 2 * l)`, where `l` is the linear step.
    pub fn smoothstep_layer_value(&self, layer_b: &Self, value_b: T, output: &mut Self) where
        T: PartialOrd + Mul<Output = T> + Sub<Output = T> + Add<Output = T> + Inv + One,
        requires
            old(output)@.len() >= super::shortest2(self@.len(), layer_b@.len()),
            <T as SubSpec<T>>::obeys_sub_spec(),
            <T as MulSpec<T>>::obeys_mul_spec(),
            <T as AddSpec<T>>::obeys_add_spec(),
            crate::partial_ord::obeys_order::<T>(),
            forall|i: int|
                #![trigger self@[i]]
                0 <= i < super::shortest2(self@.len(), layer_b@.len()) ==>
                    crate::interpolations::smoothstep_req(self@[i], layer_b@[i], value_b),
        ensures
            super::kept_from(
                old(output)@,
                final(output)@,
                super::shortest2(self@.len(), layer_b@.len()),
            ),
            forall|i: int|
                0 <= i < super::shortest2(self@.len(), layer_b@.len()) ==>
                    crate::interpolations::is_smoothstep(
                        self@[i],
                        layer_b@[i],
                        value_b,
                        #[trigger] final(output)@[i],
                    ),
    {
        self.map2(layer_b, output,
            |s_i: T, b_i: T| -> (r: T)
                requires
                    <T as SubSpec<T>>::obeys_sub_spec(),
                    <T as MulSpec<T>>::obeys_mul_spec(),
                    <T as AddSpec<T>>::obeys_add_spec(),
                    crate::partial_ord::obeys_order::<T>(),
                    crate::interpolations::smoothstep_req(s_i, b_i, value_b),
                ensures
                    crate::interpolations::is_smoothstep(s_i, b_i, value_b, r),
                { smoothstep(s_i, b_i, value_b) }
        );
    }

    /// `output[i]` is the smooth step of `self[i]` between `layer_b[i]` and `layer_c[i]`:
    /// `l * l * (3 - 2 * l)`, where `l` is the linear step.
    pub fn smoothstep_layer_layer(&self, layer_b: &Self, layer_c: &Self, output: &mut Self) where
        T: PartialOrd + Mul<Output = T> + Sub<Output = T> + Add<Output = T> + Inv + One,
        requires
            old(output)@.len() >= super::shortest3(self@.len(), layer_b@.len(), layer_c@.len()),
            <T as SubSpec<T>>::obeys_sub_spec(),
            <T as MulSpec<T>>::obeys_mul_spec(),
            <T as AddSpec<T>>::obeys_add_spec(),
            crate::partial_ord::obeys_order::<T>(),
            forall|i: int|
                #![trigger self@[i]]
                0 <= i < super::shortest3(self@.len(), layer_b@.len(), layer_c@.len()) ==>
                    crate::interpolations::smoothstep_req(self@[i], layer_b@[i], layer_c@[i]),
        ensures
            super::kept_from(
                old(output)@,
                final(output)@,
                super::shortest3(self@.len(), layer_b@.len(), layer_c@.len()),
            ),
            forall|i: int|
                0 <= i < super::shortest3(self@.len(), layer_b@.len(), layer_c@.len()) ==>
                    crate::interpolations::is_smoothstep(
                        self@[i],
                        layer_b@[i],
                        layer_c@[i],
                        #[trigger] final(output)@[i],
                    ),
    {
        self.map3(layer_b, layer_c, output,
            |s_i: T, b_i: T, c_i: T| -> (r: T)
                requires
                    <T as SubSpec<T>>::obeys_sub_spec(),
                    <T as MulSpec<T>>::obeys_mul_spec(),
                    <T as AddSpec<T>>::obeys_add_spec(),
                    crate::partial_ord::obeys_order::<T>(),
                    crate::interpolations::smoothstep_req(s_i, b_i, c_i),
                ensures
                    crate::interpolations::is_smoothstep(s_i, b_i, c_i, r),
                { smoothstep(s_i, b_i, c_i) }
        );
    }

    /// `output[i] = 2 / (e^(-value * self[i]) + 1) - 1`
    ///
    /// The slope is negated once, also where the layer is empty.
    pub fn smoothstep2_value(&self, value: T, output: &mut Self) where
        T: Neg<Output = T> + Mul<Output = T> + Add<Output = T> + Sub<Output = T> + EX<Output = T>
            + Inv + One,
        requires
            old(output)@.len() >= self@.len(),
            <T as MulSpec<T>>::obeys_mul_spec(),
            <T as AddSpec<T>>::obeys_add_spec(),
            <T as NegSpec>::obeys_neg_spec(),
            value.neg_req(),
            forall|i: int|
                #![trigger self@[i]]
                0 <= i < self@.len() ==>
                    crate::interpolations::logistic_req(self@[i], value.neg_spec()),
        ensures
            super::kept_from(old(output)@, final(output)@, self@.len()),
            forall|i: int|
                0 <= i < self@.len() ==>
                    crate::interpolations::logistic_returns(
                        self@[i],
                        value.neg_spec(),
                        #[trigger] final(output)@[i],
                    ),
            <T as SubSpec<T>>::obeys_sub_spec() ==> forall|i: int|
                0 <= i < self@.len() ==>
                    #[trigger] final(output)@[i] == crate::interpolations::logistic_spec(
                        self@[i],
                        value.neg_spec(),
                    ),
    {
        let k_neg = value.neg();
        self.map1(output,
            |s_i: T| -> (r: T)
                requires
                    <T as MulSpec<T>>::obeys_mul_spec(),
                    <T as AddSpec<T>>::obeys_add_spec(),
                    k_neg == value.neg_spec(),
                    crate::interpolations::logistic_req(s_i, value.neg_spec()),
                ensures
                    crate::interpolations::logistic_returns(s_i, value.neg_spec(), r),
                    <T as SubSpec<T>>::obeys_sub_spec() ==>
                        r == crate::interpolations::logistic_spec(s_i, value.neg_spec()),
                { smoothstep2_neg(s_i, k_neg) }
        );
    }

    /// `output[i] = 2 / (e^(-layer_b[i] * self[i]) + 1) - 1`
    pub fn smoothstep2_layer(&self, layer_b: &Self, output: &mut Self) where
        T: Neg<Output = T> + Mul<Output = T> + Add<Output = T> + Sub<Output = T> + EX<Output = T>
            + Inv + One,
        requires
            old(output)@.len() >= super::shortest2(self@.len(), layer_b@.len()),
            <T as NegSpec>::obeys_neg_spec(),
            <T as MulSpec<T>>::obeys_mul_spec(),
            <T as AddSpec<T>>::obeys_add_spec(),
            forall|i: int|
                #![trigger self@[i]]
                0 <= i < super::shortest2(self@.len(), layer_b@.len()) ==> {
                    &&& layer_b@[i].neg_req()
                    &&& crate::interpolations::logistic_req(self@[i], layer_b@[i].neg_spec())
                },
        ensures
            super::kept_from(
                old(output)@,
                final(output)@,
                super::shortest2(self@.len(), layer_b@.len()),
            ),
            forall|i: int|
                0 <= i < super::shortest2(self@.len(), layer_b@.len()) ==>
                    crate::interpolations::logistic_returns(
                        self@[i],
                        layer_b@[i].neg_spec(),
                        #[trigger] final(output)@[i],
                    ),
            <T as SubSpec<T>>::obeys_sub_spec() ==> forall|i: int|
                0 <= i < super::shortest2(self@.len(), layer_b@.len()) ==>
                    #[trigger] final(output)@[i] == crate::interpolations::logistic_spec(
                        self@[i],
                        layer_b@[i].neg_spec(),
                    ),
    {
        self.map2(layer_b, output,
            |s_i: T, b_i: T| -> (r: T)
                requires
                    <T as NegSpec>::obeys_neg_spec(),
                    <T as MulSpec<T>>::obeys_mul_spec(),
                    <T as AddSpec<T>>::obeys_add_spec(),
                    b_i.neg_req(),
                    crate::interpolations::logistic_req(s_i, b_i.neg_spec()),
                ensures
                    crate::interpolations::logistic_returns(s_i, b_i.neg_spec(), r),
                    <T as SubSpec<T>>::obeys_sub_spec() ==>
                        r == crate::interpolations::logistic_spec(s_i, b_i.neg_spec()),
                { smoothstep2(s_i, b_i) }
        );
    }

    /// Piecewise linear interpolation of every element through the control points
    /// `(xs[k], ys[k])`, whose `xs` ascend. The three buffers must be as long as `self`;
    /// `temp1` and `temp2` are scratch space, and nothing is allocated.
    ///
    /// The layers are walked once for each interval between two control points: its linear
    /// step goes to `temp1`, and the blend towards the later point's value goes to `output`
    /// and from there to `temp2`, from which the next interval starts.
    pub fn lerp(
        &self,
        xs: &[T],
        ys: &[T],
        output: &mut Self,
        temp1: &mut Self,
        temp2: &mut Self,
    ) where
        T: PartialOrd + Mul<Output = T> + Add<Output = T> + Sub<Output = T> + Inv + One,

        requires
            xs@.len() >= 1,
            ys@.len() >= xs@.len(),
            old(output)@.len() == self@.len(),
            old(temp1)@.len() == self@.len(),
            old(temp2)@.len() == self@.len(),
            <T as SubSpec<T>>::obeys_sub_spec(),
            <T as MulSpec<T>>::obeys_mul_spec(),
            <T as AddSpec<T>>::obeys_add_spec(),
            crate::partial_ord::obeys_order::<T>(),
            forall|i: int|
                #![trigger self@[i]]
                0 <= i < self@.len() ==> crate::interpolations::lerp_req(
                    self@[i],
                    xs@,
                    ys@,
                    xs@.len() - 1,
                ),
        ensures
            final(output)@.len() == self@.len(),
            final(temp1)@.len() == self@.len(),
            final(temp2)@.len() == self@.len(),
            forall|i: int|
                0 <= i < self@.len() ==> crate::interpolations::is_lerp(
                    self@[i],
                    xs@,
                    ys@,
                    xs@.len() - 1,
                    #[trigger] final(output)@[i],
                ),
    {
        let n: usize = xs.len();
        if self.len() == 0 {
            return ;
        }
        temp2.fill(ys[0]);
        let mut k: usize = 1;
        while k < n
            invariant
                1 <= k <= n,
                n == xs@.len(),
                ys@.len() >= n,
                self@.len() > 0,
                output@.len() == self@.len(),
                temp1@.len() == self@.len(),
                temp2@.len() == self@.len(),
                <T as SubSpec<T>>::obeys_sub_spec(),
                <T as MulSpec<T>>::obeys_mul_spec(),
                <T as AddSpec<T>>::obeys_add_spec(),
                crate::partial_ord::obeys_order::<T>(),
                forall|i: int|
                    #![trigger self@[i]]
                    0 <= i < self@.len() ==> crate::interpolations::lerp_req(
                        self@[i],
                        xs@,
                        ys@,
                        n - 1,
                    ),
                forall|i: int|
                    0 <= i < self@.len() ==> crate::interpolations::is_lerp(
                        self@[i],
                        xs@,
                        ys@,
                        k - 1,
                        #[trigger] temp2@[i],
                    ),
            decreases n - k,
        {
            proof {
                assert forall|i: int| 0 <= i < self@.len() implies crate::interpolations::lerp_req(
                    #[trigger] self@[i],
                    xs@,
                    ys@,
                    k as int,
                ) by {
                    crate::interpolations::lemma_lerp_req_holds_earlier(
                        self@[i],
                        xs@,
                        ys@,
                        k as int,
                        n - 1,
                    );
                }
                assert(crate::interpolations::ratio_req(self@[0], xs@[k - 1], xs@[k as int]));
            }
            self.linearstep_value_value(xs[k - 1], xs[k], temp1);
            let ghost before = temp2@;
            temp1.mix_layer_value(temp2, ys[k], output);
            output.copy_into(temp2);
            proof {
                assert forall|i: int| 0 <= i < self@.len() implies crate::interpolations::is_lerp(
                    self@[i],
                    xs@,
                    ys@,
                    k as int,
                    #[trigger] temp2@[i],
                ) by {
                    assert(crate::interpolations::is_linearstep(
                        self@[i],
                        xs@[k - 1],
                        xs@[k as int],
                        temp1@[i],
                    ));
                    assert(crate::interpolations::is_lerp(self@[i], xs@, ys@, k - 1, before[i]));
                    assert(temp2@[i] == crate::interpolations::mix_spec(
                        temp1@[i],
                        before[i],
                        ys@[k as int],
                    ));
                }
            }
            k += 1;
        }
        temp2.copy_into(output);
    }
}

} // verus!
