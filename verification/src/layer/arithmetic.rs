//! Elementwise arithmetic, comparison and selection on layers.
//!
//! Each operation comes with a constant operand (`_value`) and with a layer operand
//! (`_layer`). Addition and subtraction also come weighted and masked.
//!
//! An operator of the standard library is described by its `_req` and `_spec` functions.
//! What is stated of an element through `_spec` holds for element types whose operator
//! obeys its model; the relations of `operators`, `partial_ord` and `partial_eq` say what
//! holds for every element type. Where the result of one operator is handed to another,
//! the first must obey its model, and the relation speaks of the last operator's result for
//! the modelled operand.

use crate::dot::Dot;
use crate::e_x::EX;
use crate::entrywise_ops::{
    EntrywiseAdd, EntrywiseDiv, EntrywiseEX, EntrywiseInv, EntrywiseMul, EntrywisePow,
    EntrywiseSqrt, EntrywiseSub,
};
use crate::inv::Inv;
use crate::layer::Layer;
use crate::magnitude::Magnitude;
use crate::partial_eq::{eq, ne};
use crate::partial_ord::{ge, gt, le, lt, partial_max, partial_min};
use crate::power::Power;
use crate::similarity::Similarity;
use crate::square_root::SquareRoot;
use core::ops::{Add, Div, Mul, Sub};
use vstd::prelude::*;
use vstd::std_specs::ops::{AddSpec, DivSpec, MulSpec, SubSpec};

verus! {

impl<T: Copy + Default> Layer<T> {
    /// `output[i] = min(self[i], value)`
    pub fn min_value(&self, value: T, output: &mut Self) where
        T: PartialOrd,
        requires
            old(output)@.len() >= self@.len(),
        ensures
            super::kept_from(old(output)@, final(output)@, self@.len()),
            forall|i: int|
                0 <= i < self@.len() ==>
                    crate::partial_ord::is_lesser_of(self@[i], value, #[trigger] final(output)@[i]),
            crate::partial_ord::obeys_order::<T>() ==> forall|i: int|
                0 <= i < self@.len() ==>
                    #[trigger] final(output)@[i] == crate::partial_ord::lesser_of(self@[i], value),
    {
        self.map1_with(value, output,
            |s_i: T, v: T| -> (r: T)
                ensures
                    crate::partial_ord::is_lesser_of(s_i, v, r),
                    crate::partial_ord::obeys_order::<T>() ==>
                        r == crate::partial_ord::lesser_of(s_i, v),
                { partial_min(s_i, v) }
        );
    }

    /// `output[i] = min(self[i], layer_b[i])`
    pub fn min_layer(&self, layer_b: &Self, output: &mut Self) where
        T: PartialOrd,
        requires
            old(output)@.len() >= super::shortest2(self@.len(), layer_b@.len()),
        ensures
            super::kept_from(
                old(output)@,
                final(output)@,
                super::shortest2(self@.len(), layer_b@.len()),
            ),
            forall|i: int|
                0 <= i < super::shortest2(self@.len(), layer_b@.len()) ==>
                    crate::partial_ord::is_lesser_of(
                        self@[i],
                        layer_b@[i],
                        #[trigger] final(output)@[i],
                    ),
            crate::partial_ord::obeys_order::<T>() ==> forall|i: int|
                0 <= i < super::shortest2(self@.len(), layer_b@.len()) ==>
                    #[trigger] final(output)@[i] == crate::partial_ord::lesser_of(
                        self@[i],
                        layer_b@[i],
                    ),
    {
        self.map2(layer_b, output,
            |s_i: T, b_i: T| -> (r: T)
                ensures
                    crate::partial_ord::is_lesser_of(s_i, b_i, r),
                    crate::partial_ord::obeys_order::<T>() ==>
                        r == crate::partial_ord::lesser_of(s_i, b_i),
                { partial_min(s_i, b_i) }
        );
    }

    /// `output[i] = max(self[i], value)`
    pub fn max_value(&self, value: T, output: &mut Self) where
        T: PartialOrd,
        requires
            old(output)@.len() >= self@.len(),
        ensures
            super::kept_from(old(output)@, final(output)@, self@.len()),
            forall|i: int|
                0 <= i < self@.len() ==>
                    crate::partial_ord::is_greater_of(
                        self@[i],
                        value,
                        #[trigger] final(output)@[i],
                    ),
            crate::partial_ord::obeys_order::<T>() ==> forall|i: int|
                0 <= i < self@.len() ==>
                    #[trigger] final(output)@[i] == crate::partial_ord::greater_of(self@[i], value),
    {
        self.map1_with(value, output,
            |s_i: T, v: T| -> (r: T)
                ensures
                    crate::partial_ord::is_greater_of(s_i, v, r),
                    crate::partial_ord::obeys_order::<T>() ==>
                        r == crate::partial_ord::greater_of(s_i, v),
                { partial_max(s_i, v) }
        );
    }

    /// `output[i] = max(self[i], layer_b[i])`
    pub fn max_layer(&self, layer_b: &Self, output: &mut Self) where
        T: PartialOrd,
        requires
            old(output)@.len() >= super::shortest2(self@.len(), layer_b@.len()),
        ensures
            super::kept_from(
                old(output)@,
                final(output)@,
                super::shortest2(self@.len(), layer_b@.len()),
            ),
            forall|i: int|
                0 <= i < super::shortest2(self@.len(), layer_b@.len()) ==>
                    crate::partial_ord::is_greater_of(
                        self@[i],
                        layer_b@[i],
                        #[trigger] final(output)@[i],
                    ),
            crate::partial_ord::obeys_order::<T>() ==> forall|i: int|
                0 <= i < super::shortest2(self@.len(), layer_b@.len()) ==>
                    #[trigger] final(output)@[i] == crate::partial_ord::greater_of(
                        self@[i],
                        layer_b@[i],
                    ),
    {
        self.map2(layer_b, output,
            |s_i: T, b_i: T| -> (r: T)
                ensures
                    crate::partial_ord::is_greater_of(s_i, b_i, r),
                    crate::partial_ord::obeys_order::<T>() ==>
                        r == crate::partial_ord::greater_of(s_i, b_i),
                { partial_max(s_i, b_i) }
        );
    }

    /// `output[i]` tells whether `self[i] < value`.
    pub fn get_lt_value_mask(&self, value: T, output: &mut Layer<bool>) where
        T: PartialOrd,
        requires
            old(output)@.len() >= self@.len(),
        ensures
            super::kept_from(old(output)@, final(output)@, self@.len()),
            forall|i: int|
                0 <= i < self@.len() ==>
                    crate::partial_ord::lt_returns(self@[i], value, #[trigger] final(output)@[i]),
            crate::partial_ord::obeys_order::<T>() ==> forall|i: int|
                0 <= i < self@.len() ==>
                    #[trigger] final(output)@[i] == crate::partial_ord::less(self@[i], value),
    {
        self.map1_with(value, output,
            |s_i: T, v: T| -> (r: bool)
                ensures
                    crate::partial_ord::lt_returns(s_i, v, r),
                    crate::partial_ord::obeys_order::<T>() ==>
                        r == crate::partial_ord::less(s_i, v),
                { lt(s_i, v) }
        );
    }

    /// `output[i]` tells whether `self[i] < layer_b[i]`.
    pub fn get_lt_layer_mask(&self, layer_b: &Self, output: &mut Layer<bool>) where
        T: PartialOrd,
        requires
            old(output)@.len() >= super::shortest2(self@.len(), layer_b@.len()),
        ensures
            super::kept_from(
                old(output)@,
                final(output)@,
                super::shortest2(self@.len(), layer_b@.len()),
            ),
            forall|i: int|
                0 <= i < super::shortest2(self@.len(), layer_b@.len()) ==>
                    crate::partial_ord::lt_returns(
                        self@[i],
                        layer_b@[i],
                        #[trigger] final(output)@[i],
                    ),
            crate::partial_ord::obeys_order::<T>() ==> forall|i: int|
                0 <= i < super::shortest2(self@.len(), layer_b@.len()) ==>
                    #[trigger] final(output)@[i] == crate::partial_ord::less(self@[i], layer_b@[i]),
    {
        self.map2(layer_b, output,
            |s_i: T, b_i: T| -> (r: bool)
                ensures
                    crate::partial_ord::lt_returns(s_i, b_i, r),
                    crate::partial_ord::obeys_order::<T>() ==>
                        r == crate::partial_ord::less(s_i, b_i),
                { lt(s_i, b_i) }
        );
    }

    /// `output[i]` tells whether `self[i] <= value`.
    pub fn get_le_value_mask(&self, value: T, output: &mut Layer<bool>) where
        T: PartialOrd,
        requires
            old(output)@.len() >= self@.len(),
        ensures
            super::kept_from(old(output)@, final(output)@, self@.len()),
            forall|i: int|
                0 <= i < self@.len() ==>
                    crate::partial_ord::le_returns(self@[i], value, #[trigger] final(output)@[i]),
            crate::partial_ord::obeys_order::<T>() ==> forall|i: int|
                0 <= i < self@.len() ==>
                    #[trigger] final(output)@[i] == crate::partial_ord::less_eq(self@[i], value),
    {
        self.map1_with(value, output,
            |s_i: T, v: T| -> (r: bool)
                ensures
                    crate::partial_ord::le_returns(s_i, v, r),
                    crate::partial_ord::obeys_order::<T>() ==>
                        r == crate::partial_ord::less_eq(s_i, v),
                { le(s_i, v) }
        );
    }

    /// `output[i]` tells whether `self[i] <= layer_b[i]`.
    pub fn get_le_layer_mask(&self, layer_b: &Self, output: &mut Layer<bool>) where
        T: PartialOrd,
        requires
            old(output)@.len() >= super::shortest2(self@.len(), layer_b@.len()),
        ensures
            super::kept_from(
                old(output)@,
                final(output)@,
                super::shortest2(self@.len(), layer_b@.len()),
            ),
            forall|i: int|
                0 <= i < super::shortest2(self@.len(), layer_b@.len()) ==>
                    crate::partial_ord::le_returns(
                        self@[i],
                        layer_b@[i],
                        #[trigger] final(output)@[i],
                    ),
            crate::partial_ord::obeys_order::<T>() ==> forall|i: int|
                0 <= i < super::shortest2(self@.len(), layer_b@.len()) ==>
                    #[trigger] final(output)@[i] == crate::partial_ord::less_eq(
                        self@[i],
                        layer_b@[i],
                    ),
    {
        self.map2(layer_b, output,
            |s_i: T, b_i: T| -> (r: bool)
                ensures
                    crate::partial_ord::le_returns(s_i, b_i, r),
                    crate::partial_ord::obeys_order::<T>() ==>
                        r == crate::partial_ord::less_eq(s_i, b_i),
                { le(s_i, b_i) }
        );
    }

    /// `output[i]` tells whether `self[i] > value`.
    pub fn get_gt_value_mask(&self, value: T, output: &mut Layer<bool>) where
        T: PartialOrd,
        requires
            old(output)@.len() >= self@.len(),
        ensures
            super::kept_from(old(output)@, final(output)@, self@.len()),
            forall|i: int|
                0 <= i < self@.len() ==>
                    crate::partial_ord::gt_returns(self@[i], value, #[trigger] final(output)@[i]),
            crate::partial_ord::obeys_order::<T>() ==> forall|i: int|
                0 <= i < self@.len() ==>
                    #[trigger] final(output)@[i] == crate::partial_ord::greater(self@[i], value),
    {
        self.map1_with(value, output,
            |s_i: T, v: T| -> (r: bool)
                ensures
                    crate::partial_ord::gt_returns(s_i, v, r),
                    crate::partial_ord::obeys_order::<T>() ==>
                        r == crate::partial_ord::greater(s_i, v),
                { gt(s_i, v) }
        );
    }

    /// `output[i]` tells whether `self[i] > layer_b[i]`.
    pub fn get_gt_layer_mask(&self, layer_b: &Self, output: &mut Layer<bool>) where
        T: PartialOrd,
        requires
            old(output)@.len() >= super::shortest2(self@.len(), layer_b@.len()),
        ensures
            super::kept_from(
                old(output)@,
                final(output)@,
                super::shortest2(self@.len(), layer_b@.len()),
            ),
            forall|i: int|
                0 <= i < super::shortest2(self@.len(), layer_b@.len()) ==>
                    crate::partial_ord::gt_returns(
                        self@[i],
                        layer_b@[i],
                        #[trigger] final(output)@[i],
                    ),
            crate::partial_ord::obeys_order::<T>() ==> forall|i: int|
                0 <= i < super::shortest2(self@.len(), layer_b@.len()) ==>
                    #[trigger] final(output)@[i] == crate::partial_ord::greater(
                        self@[i],
                        layer_b@[i],
                    ),
    {
        self.map2(layer_b, output,
            |s_i: T, b_i: T| -> (r: bool)
                ensures
                    crate::partial_ord::gt_returns(s_i, b_i, r),
                    crate::partial_ord::obeys_order::<T>() ==>
                        r == crate::partial_ord::greater(s_i, b_i),
                { gt(s_i, b_i) }
        );
    }

    /// `output[i]` tells whether `self[i] >= value`.
    pub fn get_ge_value_mask(&self, value: T, output: &mut Layer<bool>) where
        T: PartialOrd,
        requires
            old(output)@.len() >= self@.len(),
        ensures
            super::kept_from(old(output)@, final(output)@, self@.len()),
            forall|i: int|
                0 <= i < self@.len() ==>
                    crate::partial_ord::ge_returns(self@[i], value, #[trigger] final(output)@[i]),
            crate::partial_ord::obeys_order::<T>() ==> forall|i: int|
                0 <= i < self@.len() ==>
                    #[trigger] final(output)@[i] == crate::partial_ord::greater_eq(self@[i], value),
    {
        self.map1_with(value, output,
            |s_i: T, v: T| -> (r: bool)
                ensures
                    crate::partial_ord::ge_returns(s_i, v, r),
                    crate::partial_ord::obeys_order::<T>() ==>
                        r == crate::partial_ord::greater_eq(s_i, v),
                { ge(s_i, v) }
        );
    }

    /// `output[i]` tells whether `self[i] >= layer_b[i]`.
    pub fn get_ge_layer_mask(&self, layer_b: &Self, output: &mut Layer<bool>) where
        T: PartialOrd,
        requires
            old(output)@.len() >= super::shortest2(self@.len(), layer_b@.len()),
        ensures
            super::kept_from(
                old(output)@,
                final(output)@,
                super::shortest2(self@.len(), layer_b@.len()),
            ),
            forall|i: int|
                0 <= i < super::shortest2(self@.len(), layer_b@.len()) ==>
                    crate::partial_ord::ge_returns(
                        self@[i],
                        layer_b@[i],
                        #[trigger] final(output)@[i],
                    ),
            crate::partial_ord::obeys_order::<T>() ==> forall|i: int|
                0 <= i < super::shortest2(self@.len(), layer_b@.len()) ==>
                    #[trigger] final(output)@[i] == crate::partial_ord::greater_eq(
                        self@[i],
                        layer_b@[i],
                    ),
    {
        self.map2(layer_b, output,
            |s_i: T, b_i: T| -> (r: bool)
                ensures
                    crate::partial_ord::ge_returns(s_i, b_i, r),
                    crate::partial_ord::obeys_order::<T>() ==>
                        r == crate::partial_ord::greater_eq(s_i, b_i),
                { ge(s_i, b_i) }
        );
    }

    /// `output[i]` tells whether `self[i] == value`.
    pub fn get_eq_value_mask(&self, value: T, output: &mut Layer<bool>) where
        T: PartialEq,
        requires
            old(output)@.len() >= self@.len(),
        ensures
            super::kept_from(old(output)@, final(output)@, self@.len()),
            forall|i: int|
                0 <= i < self@.len() ==>
                    crate::partial_eq::eq_returns(self@[i], value, #[trigger] final(output)@[i]),
            crate::partial_eq::obeys_equality::<T>() ==> forall|i: int|
                0 <= i < self@.len() ==>
                    #[trigger] final(output)@[i] == crate::partial_eq::equal(self@[i], value),
    {
        self.map1_with(value, output,
            |s_i: T, v: T| -> (r: bool)
                ensures
                    crate::partial_eq::eq_returns(s_i, v, r),
                    crate::partial_eq::obeys_equality::<T>() ==>
                        r == crate::partial_eq::equal(s_i, v),
                { eq(s_i, v) }
        );
    }

    /// `output[i]` tells whether `self[i] == layer_b[i]`.
    pub fn get_eq_layer_mask(&self, layer_b: &Self, output: &mut Layer<bool>) where
        T: PartialEq,
        requires
            old(output)@.len() >= super::shortest2(self@.len(), layer_b@.len()),
        ensures
            super::kept_from(
                old(output)@,
                final(output)@,
                super::shortest2(self@.len(), layer_b@.len()),
            ),
            forall|i: int|
                0 <= i < super::shortest2(self@.len(), layer_b@.len()) ==>
                    crate::partial_eq::eq_returns(
                        self@[i],
                        layer_b@[i],
                        #[trigger] final(output)@[i],
                    ),
            crate::partial_eq::obeys_equality::<T>() ==> forall|i: int|
                0 <= i < super::shortest2(self@.len(), layer_b@.len()) ==>
                    #[trigger] final(output)@[i] == crate::partial_eq::equal(self@[i], layer_b@[i]),
    {
        self.map2(layer_b, output,
            |s_i: T, b_i: T| -> (r: bool)
                ensures
                    crate::partial_eq::eq_returns(s_i, b_i, r),
                    crate::partial_eq::obeys_equality::<T>() ==>
                        r == crate::partial_eq::equal(s_i, b_i),
                { eq(s_i, b_i) }
        );
    }

    /// `output[i]` tells whether `self[i] != value`.
    pub fn get_ne_value_mask(&self, value: T, output: &mut Layer<bool>) where
        T: PartialEq,
        requires
            old(output)@.len() >= self@.len(),
        ensures
            super::kept_from(old(output)@, final(output)@, self@.len()),
            forall|i: int|
                0 <= i < self@.len() ==>
                    crate::partial_eq::ne_returns(self@[i], value, #[trigger] final(output)@[i]),
            crate::partial_eq::obeys_equality::<T>() ==> forall|i: int|
                0 <= i < self@.len() ==>
                    #[trigger] final(output)@[i] == !crate::partial_eq::equal(self@[i], value),
    {
        self.map1_with(value, output,
            |s_i: T, v: T| -> (r: bool)
                ensures
                    crate::partial_eq::ne_returns(s_i, v, r),
                    crate::partial_eq::obeys_equality::<T>() ==>
                        r == !crate::partial_eq::equal(s_i, v),
                { ne(s_i, v) }
        );
    }

    /// `output[i]` tells whether `self[i] != layer_b[i]`.
    pub fn get_ne_layer_mask(&self, layer_b: &Self, output: &mut Layer<bool>) where
        T: PartialEq,
        requires
            old(output)@.len() >= super::shortest2(self@.len(), layer_b@.len()),
        ensures
            super::kept_from(
                old(output)@,
                final(output)@,
                super::shortest2(self@.len(), layer_b@.len()),
            ),
            forall|i: int|
                0 <= i < super::shortest2(self@.len(), layer_b@.len()) ==>
                    crate::partial_eq::ne_returns(
                        self@[i],
                        layer_b@[i],
                        #[trigger] final(output)@[i],
                    ),
            crate::partial_eq::obeys_equality::<T>() ==> forall|i: int|
                0 <= i < super::shortest2(self@.len(), layer_b@.len()) ==>
                    #[trigger] final(output)@[i] == !crate::partial_eq::equal(
                        self@[i],
                        layer_b@[i],
                    ),
    {
        self.map2(layer_b, output,
            |s_i: T, b_i: T| -> (r: bool)
                ensures
                    crate::partial_eq::ne_returns(s_i, b_i, r),
                    crate::partial_eq::obeys_equality::<T>() ==>
                        r == !crate::partial_eq::equal(s_i, b_i),
                { ne(s_i, b_i) }
        );
    }

    /// `output[i] = self[i] * value`
    pub fn mul_value<U, W>(&self, value: U, output: &mut Layer<W>) where
        T: Mul<U, Output = W>,
        U: Copy,
        W: Copy + Default,
        requires
            old(output)@.len() >= self@.len(),
            forall|i: int|
                #![trigger self@[i]]
                0 <= i < self@.len() ==> self@[i].mul_req(value),
        ensures
            super::kept_from(old(output)@, final(output)@, self@.len()),
            forall|i: int|
                0 <= i < self@.len() ==>
                    crate::operators::mul_returns(self@[i], value, #[trigger] final(output)@[i]),
            <T as MulSpec<U>>::obeys_mul_spec() ==> forall|i: int|
                0 <= i < self@.len() ==> #[trigger] final(output)@[i] == self@[i].mul_spec(value),
    {
        self.map1_with(value, output,
            |s_i: T, v: U| -> (r: W)
                requires
                    s_i.mul_req(v),
                ensures
                    crate::operators::mul_returns(s_i, v, r),
                    <T as MulSpec<U>>::obeys_mul_spec() ==> r == s_i.mul_spec(v),
                { s_i * v }
        );
    }

    /// `output[i] = self[i] * layer_b[i]`
    pub fn mul_layer<U, W>(&self, layer_b: &Layer<U>, output: &mut Layer<W>) where
        T: Mul<U, Output = W>,
        U: Copy + Default,
        W: Copy + Default,
        requires
            old(output)@.len() >= super::shortest2(self@.len(), layer_b@.len()),
            forall|i: int|
                #![trigger self@[i]]
                0 <= i < super::shortest2(self@.len(), layer_b@.len()) ==>
                    self@[i].mul_req(layer_b@[i]),
        ensures
            super::kept_from(
                old(output)@,
                final(output)@,
                super::shortest2(self@.len(), layer_b@.len()),
            ),
            forall|i: int|
                0 <= i < super::shortest2(self@.len(), layer_b@.len()) ==>
                    crate::operators::mul_returns(
                        self@[i],
                        layer_b@[i],
                        #[trigger] final(output)@[i],
                    ),
            <T as MulSpec<U>>::obeys_mul_spec() ==> forall|i: int|
                0 <= i < super::shortest2(self@.len(), layer_b@.len()) ==>
                    #[trigger] final(output)@[i] == self@[i].mul_spec(layer_b@[i]),
    {
        self.map2(layer_b, output,
            |s_i: T, b_i: U| -> (r: W)
                requires
                    s_i.mul_req(b_i),
                ensures
                    crate::operators::mul_returns(s_i, b_i, r),
                    <T as MulSpec<U>>::obeys_mul_spec() ==> r == s_i.mul_spec(b_i),
                { s_i * b_i }
        );
    }

    /// `output[i] = self[i] / value`
    pub fn div_value<U, W>(&self, value: U, output: &mut Layer<W>) where
        T: Div<U, Output = W>,
        U: Copy,
        W: Copy + Default,
        requires
            old(output)@.len() >= self@.len(),
            forall|i: int|
                #![trigger self@[i]]
                0 <= i < self@.len() ==> self@[i].div_req(value),
        ensures
            super::kept_from(old(output)@, final(output)@, self@.len()),
            forall|i: int|
                0 <= i < self@.len() ==>
                    crate::operators::div_returns(self@[i], value, #[trigger] final(output)@[i]),
            <T as DivSpec<U>>::obeys_div_spec() ==> forall|i: int|
                0 <= i < self@.len() ==> #[trigger] final(output)@[i] == self@[i].div_spec(value),
    {
        self.map1_with(value, output,
            |s_i: T, v: U| -> (r: W)
                requires
                    s_i.div_req(v),
                ensures
                    crate::operators::div_returns(s_i, v, r),
                    <T as DivSpec<U>>::obeys_div_spec() ==> r == s_i.div_spec(v),
                { s_i / v }
        );
    }

    /// `output[i] = self[i] / layer_b[i]`
    pub fn div_layer<U, W>(&self, layer_b: &Layer<U>, output: &mut Layer<W>) where
        T: Div<U, Output = W>,
        U: Copy + Default,
        W: Copy + Default,
        requires
            old(output)@.len() >= super::shortest2(self@.len(), layer_b@.len()),
            forall|i: int|
                #![trigger self@[i]]
                0 <= i < super::shortest2(self@.len(), layer_b@.len()) ==>
                    self@[i].div_req(layer_b@[i]),
        ensures
            super::kept_from(
                old(output)@,
                final(output)@,
                super::shortest2(self@.len(), layer_b@.len()),
            ),
            forall|i: int|
                0 <= i < super::shortest2(self@.len(), layer_b@.len()) ==>
                    crate::operators::div_returns(
                        self@[i],
                        layer_b@[i],
                        #[trigger] final(output)@[i],
                    ),
            <T as DivSpec<U>>::obeys_div_spec() ==> forall|i: int|
                0 <= i < super::shortest2(self@.len(), layer_b@.len()) ==>
                    #[trigger] final(output)@[i] == self@[i].div_spec(layer_b@[i]),
    {
        self.map2(layer_b, output,
            |s_i: T, b_i: U| -> (r: W)
                requires
                    s_i.div_req(b_i),
                ensures
                    crate::operators::div_returns(s_i, b_i, r),
                    <T as DivSpec<U>>::obeys_div_spec() ==> r == s_i.div_spec(b_i),
                { s_i / b_i }
        );
    }

    /// `output[i]` is `self[i]` raised to `value`.
    pub fn pow_value<U, W>(&self, value: U, output: &mut Layer<W>) where
        T: Power<U, Output = W>,
        U: Copy,
        W: Copy + Default,
        requires
            old(output)@.len() >= self@.len(),
            forall|i: int|
                #![trigger self@[i]]
                0 <= i < self@.len() ==> self@[i].power_req(value),
        ensures
            super::kept_from(old(output)@, final(output)@, self@.len()),
            forall|i: int|
                0 <= i < self@.len() ==> #[trigger] final(output)@[i] == self@[i].power_spec(value),
    {
        self.map1_with(value, output,
            |s_i: T, v: U| -> (r: W)
                requires
                    s_i.power_req(v),
                ensures
                    r == s_i.power_spec(v),
                { s_i.power(v) }
        );
    }

    /// `output[i]` is `value` raised to `self[i]`.
    pub fn exp_value<U, W>(&self, value: U, output: &mut Layer<W>) where
        U: Copy + Power<T, Output = W>,
        W: Copy + Default,
        requires
            old(output)@.len() >= self@.len(),
            forall|i: int|
                #![trigger self@[i]]
                0 <= i < self@.len() ==> value.power_req(self@[i]),
        ensures
            super::kept_from(old(output)@, final(output)@, self@.len()),
            forall|i: int|
                0 <= i < self@.len() ==> #[trigger] final(output)@[i] == value.power_spec(self@[i]),
    {
        self.map1(output,
            |s_i: T| -> (r: W)
                requires
                    value.power_req(s_i),
                ensures
                    r == value.power_spec(s_i),
                { value.power(s_i) }
        );
    }

    /// `output[i]` is `self[i]` raised to `layer_b[i]`.
    pub fn pow_layer<U, W>(&self, layer_b: &Layer<U>, output: &mut Layer<W>) where
        T: Power<U, Output = W>,
        U: Copy + Default,
        W: Copy + Default,
        requires
            old(output)@.len() >= super::shortest2(self@.len(), layer_b@.len()),
            forall|i: int|
                #![trigger self@[i]]
                0 <= i < super::shortest2(self@.len(), layer_b@.len()) ==>
                    self@[i].power_req(layer_b@[i]),
        ensures
            super::kept_from(
                old(output)@,
                final(output)@,
                super::shortest2(self@.len(), layer_b@.len()),
            ),
            forall|i: int|
                0 <= i < super::shortest2(self@.len(), layer_b@.len()) ==>
                    #[trigger] final(output)@[i] == self@[i].power_spec(layer_b@[i]),
    {
        self.map2(layer_b, output,
            |s_i: T, b_i: U| -> (r: W)
                requires
                    s_i.power_req(b_i),
                ensures
                    r == s_i.power_spec(b_i),
                { s_i.power(b_i) }
        );
    }

    /// `output[i]` is the entrywise product of `self[i]` and `value`.
    pub fn entrywise_mul_value<U, W>(&self, value: U, output: &mut Layer<W>) where
        T: EntrywiseMul<U, Output = W>,
        U: Copy,
        W: Copy + Default,
        requires
            old(output)@.len() >= self@.len(),
            forall|i: int|
                #![trigger self@[i]]
                0 <= i < self@.len() ==> self@[i].entrywise_mul_req(value),
        ensures
            super::kept_from(old(output)@, final(output)@, self@.len()),
            forall|i: int|
                0 <= i < self@.len() ==>
                    #[trigger] final(output)@[i] == self@[i].entrywise_mul_spec(value),
    {
        self.map1_with(value, output,
            |s_i: T, v: U| -> (r: W)
                requires
                    s_i.entrywise_mul_req(v),
                ensures
                    r == s_i.entrywise_mul_spec(v),
                { s_i.entrywise_mul(v) }
        );
    }

    /// `output[i]` is the entrywise product of `self[i]` and `layer_b[i]`.
    pub fn entrywise_mul_layer<U, W>(&self, layer_b: &Layer<U>, output: &mut Layer<W>) where
        T: EntrywiseMul<U, Output = W>,
        U: Copy + Default,
        W: Copy + Default,
        requires
            old(output)@.len() >= super::shortest2(self@.len(), layer_b@.len()),
            forall|i: int|
                #![trigger self@[i]]
                0 <= i < super::shortest2(self@.len(), layer_b@.len()) ==>
                    self@[i].entrywise_mul_req(layer_b@[i]),
        ensures
            super::kept_from(
                old(output)@,
                final(output)@,
                super::shortest2(self@.len(), layer_b@.len()),
            ),
            forall|i: int|
                0 <= i < super::shortest2(self@.len(), layer_b@.len()) ==>
                    #[trigger] final(output)@[i] == self@[i].entrywise_mul_spec(layer_b@[i]),
    {
        self.map2(layer_b, output,
            |s_i: T, b_i: U| -> (r: W)
                requires
                    s_i.entrywise_mul_req(b_i),
                ensures
                    r == s_i.entrywise_mul_spec(b_i),
                { s_i.entrywise_mul(b_i) }
        );
    }

    /// `output[i]` is the entrywise quotient of `self[i]` and `value`.
    pub fn entrywise_div_value<U, W>(&self, value: U, output: &mut Layer<W>) where
        T: EntrywiseDiv<U, Output = W>,
        U: Copy,
        W: Copy + Default,
        requires
            old(output)@.len() >= self@.len(),
            forall|i: int|
                #![trigger self@[i]]
                0 <= i < self@.len() ==> self@[i].entrywise_div_req(value),
        ensures
            super::kept_from(old(output)@, final(output)@, self@.len()),
            forall|i: int|
                0 <= i < self@.len() ==>
                    #[trigger] final(output)@[i] == self@[i].entrywise_div_spec(value),
    {
        self.map1_with(value, output,
            |s_i: T, v: U| -> (r: W)
                requires
                    s_i.entrywise_div_req(v),
                ensures
                    r == s_i.entrywise_div_spec(v),
                { s_i.entrywise_div(v) }
        );
    }

    /// `output[i]` is the entrywise quotient of `self[i]` and `layer_b[i]`.
    pub fn entrywise_div_layer<U, W>(&self, layer_b: &Layer<U>, output: &mut Layer<W>) where
        T: EntrywiseDiv<U, Output = W>,
        U: Copy + Default,
        W: Copy + Default,
        requires
            old(output)@.len() >= super::shortest2(self@.len(), layer_b@.len()),
            forall|i: int|
                #![trigger self@[i]]
                0 <= i < super::shortest2(self@.len(), layer_b@.len()) ==>
                    self@[i].entrywise_div_req(layer_b@[i]),
        ensures
            super::kept_from(
                old(output)@,
                final(output)@,
                super::shortest2(self@.len(), layer_b@.len()),
            ),
            forall|i: int|
                0 <= i < super::shortest2(self@.len(), layer_b@.len()) ==>
                    #[trigger] final(output)@[i] == self@[i].entrywise_div_spec(layer_b@[i]),
    {
        self.map2(layer_b, output,
            |s_i: T, b_i: U| -> (r: W)
                requires
                    s_i.entrywise_div_req(b_i),
                ensures
                    r == s_i.entrywise_div_spec(b_i),
                { s_i.entrywise_div(b_i) }
        );
    }

    /// `output[i]` is `self[i]` raised to `value`, entry by entry.
    pub fn entrywise_pow_value<U, W>(&self, value: U, output: &mut Layer<W>) where
        T: EntrywisePow<U, Output = W>,
        U: Copy,
        W: Copy + Default,
        requires
            old(output)@.len() >= self@.len(),
            forall|i: int|
                #![trigger self@[i]]
                0 <= i < self@.len() ==> self@[i].entrywise_pow_req(value),
        ensures
            super::kept_from(old(output)@, final(output)@, self@.len()),
            forall|i: int|
                0 <= i < self@.len() ==>
                    #[trigger] final(output)@[i] == self@[i].entrywise_pow_spec(value),
    {
        self.map1_with(value, output,
            |s_i: T, v: U| -> (r: W)
                requires
                    s_i.entrywise_pow_req(v),
                ensures
                    r == s_i.entrywise_pow_spec(v),
                { s_i.entrywise_pow(v) }
        );
    }

    /// `output[i]` is `value` raised to `self[i]`, entry by entry.
    pub fn entrywise_exp_value<U, W>(&self, value: U, output: &mut Layer<W>) where
        U: Copy + EntrywisePow<T, Output = W>,
        W: Copy + Default,
        requires
            old(output)@.len() >= self@.len(),
            forall|i: int|
                #![trigger self@[i]]
                0 <= i < self@.len() ==> value.entrywise_pow_req(self@[i]),
        ensures
            super::kept_from(old(output)@, final(output)@, self@.len()),
            forall|i: int|
                0 <= i < self@.len() ==>
                    #[trigger] final(output)@[i] == value.entrywise_pow_spec(self@[i]),
    {
        self.map1(output,
            |s_i: T| -> (r: W)
                requires
                    value.entrywise_pow_req(s_i),
                ensures
                    r == value.entrywise_pow_spec(s_i),
                { value.entrywise_pow(s_i) }
        );
    }

    /// `output[i]` is `self[i]` raised to `layer_b[i]`, entry by entry.
    pub fn entrywise_pow_layer<U, W>(&self, layer_b: &Layer<U>, output: &mut Layer<W>) where
        T: EntrywisePow<U, Output = W>,
        U: Copy + Default,
        W: Copy + Default,
        requires
            old(output)@.len() >= super::shortest2(self@.len(), layer_b@.len()),
            forall|i: int|
                #![trigger self@[i]]
                0 <= i < super::shortest2(self@.len(), layer_b@.len()) ==>
                    self@[i].entrywise_pow_req(layer_b@[i]),
        ensures
            super::kept_from(
                old(output)@,
                final(output)@,
                super::shortest2(self@.len(), layer_b@.len()),
            ),
            forall|i: int|
                0 <= i < super::shortest2(self@.len(), layer_b@.len()) ==>
                    #[trigger] final(output)@[i] == self@[i].entrywise_pow_spec(layer_b@[i]),
    {
        self.map2(layer_b, output,
            |s_i: T, b_i: U| -> (r: W)
                requires
                    s_i.entrywise_pow_req(b_i),
                ensures
                    r == s_i.entrywise_pow_spec(b_i),
                { s_i.entrywise_pow(b_i) }
        );
    }

    /// `output[i]` is the dot product of `self[i]` and `value`.
    pub fn dot_value<U, W>(&self, value: U, output: &mut Layer<W>) where
        T: Dot<U, Output = W>,
        U: Copy,
        W: Copy + Default,
        requires
            old(output)@.len() >= self@.len(),
            forall|i: int|
                #![trigger self@[i]]
                0 <= i < self@.len() ==> self@[i].dot_req(value),
        ensures
            super::kept_from(old(output)@, final(output)@, self@.len()),
            forall|i: int|
                0 <= i < self@.len() ==> #[trigger] final(output)@[i] == self@[i].dot_spec(value),
    {
        self.map1_with(value, output,
            |s_i: T, v: U| -> (r: W)
                requires
                    s_i.dot_req(v),
                ensures
                    r == s_i.dot_spec(v),
                { s_i.dot(v) }
        );
    }

    /// `output[i]` is the dot product of `self[i]` and `layer_b[i]`.
    pub fn dot_layer<U, W>(&self, layer_b: &Layer<U>, output: &mut Layer<W>) where
        T: Dot<U, Output = W>,
        U: Copy + Default,
        W: Copy + Default,
        requires
            old(output)@.len() >= super::shortest2(self@.len(), layer_b@.len()),
            forall|i: int|
                #![trigger self@[i]]
                0 <= i < super::shortest2(self@.len(), layer_b@.len()) ==>
                    self@[i].dot_req(layer_b@[i]),
        ensures
            super::kept_from(
                old(output)@,
                final(output)@,
                super::shortest2(self@.len(), layer_b@.len()),
            ),
            forall|i: int|
                0 <= i < super::shortest2(self@.len(), layer_b@.len()) ==>
                    #[trigger] final(output)@[i] == self@[i].dot_spec(layer_b@[i]),
    {
        self.map2(layer_b, output,
            |s_i: T, b_i: U| -> (r: W)
                requires
                    s_i.dot_req(b_i),
                ensures
                    r == s_i.dot_spec(b_i),
                { s_i.dot(b_i) }
        );
    }

    /// `output[i]` is the similarity of `self[i]` and `value`.
    pub fn similarity_value<U, W>(&self, value: U, output: &mut Layer<W>) where
        T: Similarity<U, Output = W>,
        U: Copy,
        W: Copy + Default,
        requires
            old(output)@.len() >= self@.len(),
            forall|i: int|
                #![trigger self@[i]]
                0 <= i < self@.len() ==> self@[i].similarity_req(value),
        ensures
            super::kept_from(old(output)@, final(output)@, self@.len()),
            forall|i: int|
                0 <= i < self@.len() ==>
                    #[trigger] final(output)@[i] == self@[i].similarity_spec(value),
    {
        self.map1_with(value, output,
            |s_i: T, v: U| -> (r: W)
                requires
                    s_i.similarity_req(v),
                ensures
                    r == s_i.similarity_spec(v),
                { s_i.similarity(v) }
        );
    }

    /// `output[i]` is the similarity of `self[i]` and `layer_b[i]`.
    pub fn similarity_layer<U, W>(&self, layer_b: &Layer<U>, output: &mut Layer<W>) where
        T: Similarity<U, Output = W>,
        U: Copy + Default,
        W: Copy + Default,
        requires
            old(output)@.len() >= super::shortest2(self@.len(), layer_b@.len()),
            forall|i: int|
                #![trigger self@[i]]
                0 <= i < super::shortest2(self@.len(), layer_b@.len()) ==>
                    self@[i].similarity_req(layer_b@[i]),
        ensures
            super::kept_from(
                old(output)@,
                final(output)@,
                super::shortest2(self@.len(), layer_b@.len()),
            ),
            forall|i: int|
                0 <= i < super::shortest2(self@.len(), layer_b@.len()) ==>
                    #[trigger] final(output)@[i] == self@[i].similarity_spec(layer_b@[i]),
    {
        self.map2(layer_b, output,
            |s_i: T, b_i: U| -> (r: W)
                requires
                    s_i.similarity_req(b_i),
                ensures
                    r == s_i.similarity_spec(b_i),
                { s_i.similarity(b_i) }
        );
    }

    /// `output[i] = self[i] + value`
    pub fn add_value<U>(&self, value: U, output: &mut Self) where
        T: Add<U, Output = T>,
        U: Copy,
        requires
            old(output)@.len() >= self@.len(),
            forall|i: int|
                #![trigger self@[i]]
                0 <= i < self@.len() ==> self@[i].add_req(value),
        ensures
            super::kept_from(old(output)@, final(output)@, self@.len()),
            forall|i: int|
                0 <= i < self@.len() ==>
                    crate::operators::add_returns(self@[i], value, #[trigger] final(output)@[i]),
            <T as AddSpec<U>>::obeys_add_spec() ==> forall|i: int|
                0 <= i < self@.len() ==> #[trigger] final(output)@[i] == self@[i].add_spec(value),
    {
        self.map1_with(value, output,
            |s_i: T, v: U| -> (r: T)
                requires
                    s_i.add_req(v),
                ensures
                    crate::operators::add_returns(s_i, v, r),
                    <T as AddSpec<U>>::obeys_add_spec() ==> r == s_i.add_spec(v),
                { s_i + v }
        );
    }

    /// `output[i] = self[i] + layer_b[i]`
    pub fn add_layer<U>(&self, layer_b: &Layer<U>, output: &mut Self) where
        T: Add<U, Output = T>,
        U: Copy + Default,
        requires
            old(output)@.len() >= super::shortest2(self@.len(), layer_b@.len()),
            forall|i: int|
                #![trigger self@[i]]
                0 <= i < super::shortest2(self@.len(), layer_b@.len()) ==>
                    self@[i].add_req(layer_b@[i]),
        ensures
            super::kept_from(
                old(output)@,
                final(output)@,
                super::shortest2(self@.len(), layer_b@.len()),
            ),
            forall|i: int|
                0 <= i < super::shortest2(self@.len(), layer_b@.len()) ==>
                    crate::operators::add_returns(
                        self@[i],
                        layer_b@[i],
                        #[trigger] final(output)@[i],
                    ),
            <T as AddSpec<U>>::obeys_add_spec() ==> forall|i: int|
                0 <= i < super::shortest2(self@.len(), layer_b@.len()) ==>
                    #[trigger] final(output)@[i] == self@[i].add_spec(layer_b@[i]),
    {
        self.map2(layer_b, output,
            |s_i: T, b_i: U| -> (r: T)
                requires
                    s_i.add_req(b_i),
                ensures
                    crate::operators::add_returns(s_i, b_i, r),
                    <T as AddSpec<U>>::obeys_add_spec() ==> r == s_i.add_spec(b_i),
                { s_i + b_i }
        );
    }

    /// `output[i] = self[i] + weights[i] * value`
    pub fn add_value_weighted<U, W, X>(&self, value: U, weights: &Layer<W>, output: &mut Self) where
        T: Add<X, Output = T>,
        U: Copy,
        W: Copy + Default + Mul<U, Output = X>,
        requires
            old(output)@.len() >= super::shortest2(self@.len(), weights@.len()),
            <W as MulSpec<U>>::obeys_mul_spec(),
            forall|i: int|
                #![trigger self@[i]]
                0 <= i < super::shortest2(self@.len(), weights@.len()) ==> {
                    &&& weights@[i].mul_req(value)
                    &&& self@[i].add_req(weights@[i].mul_spec(value))
                },
        ensures
            super::kept_from(
                old(output)@,
                final(output)@,
                super::shortest2(self@.len(), weights@.len()),
            ),
            forall|i: int|
                0 <= i < super::shortest2(self@.len(), weights@.len()) ==>
                    crate::operators::add_returns(
                        self@[i],
                        weights@[i].mul_spec(value),
                        #[trigger] final(output)@[i],
                    ),
            <T as AddSpec<X>>::obeys_add_spec() ==> forall|i: int|
                0 <= i < super::shortest2(self@.len(), weights@.len()) ==>
                    #[trigger] final(output)@[i] == self@[i].add_spec(weights@[i].mul_spec(value)),
    {
        self.map2(weights, output,
            |s_i: T, w_i: W| -> (r: T)
                requires
                    <W as MulSpec<U>>::obeys_mul_spec(),
                    w_i.mul_req(value),
                    s_i.add_req(w_i.mul_spec(value)),
                ensures
                    crate::operators::add_returns(s_i, w_i.mul_spec(value), r),
                    <T as AddSpec<X>>::obeys_add_spec() ==> r == s_i.add_spec(w_i.mul_spec(value)),
                { s_i + w_i * value }
        );
    }

    /// `output[i] = self[i] + weights[i] * layer_b[i]`
    pub fn add_layer_weighted<U, W, X>(
        &self,
        layer_b: &Layer<U>,
        weights: &Layer<W>,
        output: &mut Self,
    ) where
        T: Add<X, Output = T>,
        U: Copy + Default,
        W: Copy + Default + Mul<U, Output = X>,
        requires
            old(output)@.len() >= super::shortest3(self@.len(), layer_b@.len(), weights@.len()),
            <W as MulSpec<U>>::obeys_mul_spec(),
            forall|i: int|
                #![trigger self@[i]]
                0 <= i < super::shortest3(self@.len(), layer_b@.len(), weights@.len()) ==> {
                    &&& weights@[i].mul_req(layer_b@[i])
                    &&& self@[i].add_req(weights@[i].mul_spec(layer_b@[i]))
                },
        ensures
            super::kept_from(
                old(output)@,
                final(output)@,
                super::shortest3(self@.len(), layer_b@.len(), weights@.len()),
            ),
            forall|i: int|
                0 <= i < super::shortest3(self@.len(), layer_b@.len(), weights@.len()) ==>
                    crate::operators::add_returns(
                        self@[i],
                        weights@[i].mul_spec(layer_b@[i]),
                        #[trigger] final(output)@[i],
                    ),
            <T as AddSpec<X>>::obeys_add_spec() ==> forall|i: int|
                0 <= i < super::shortest3(self@.len(), layer_b@.len(), weights@.len()) ==>
                    #[trigger] final(output)@[i] == self@[i].add_spec(
                        weights@[i].mul_spec(layer_b@[i]),
                    ),
    {
        self.map3(layer_b, weights, output,
            |s_i: T, b_i: U, w_i: W| -> (r: T)
                requires
                    <W as MulSpec<U>>::obeys_mul_spec(),
                    w_i.mul_req(b_i),
                    s_i.add_req(w_i.mul_spec(b_i)),
                ensures
                    crate::operators::add_returns(s_i, w_i.mul_spec(b_i), r),
                    <T as AddSpec<X>>::obeys_add_spec() ==> r == s_i.add_spec(w_i.mul_spec(b_i)),
                { s_i + w_i * b_i }
        );
    }

    /// `output[i] = self[i] + value` where `mask[i]` is true, else
    /// `output[i] = self[i]`.
    pub fn add_value_by_mask<U>(&self, value: U, mask: &Layer<bool>, output: &mut Self) where
        T: Add<U, Output = T>,
        U: Copy,
        requires
            old(output)@.len() >= super::shortest2(self@.len(), mask@.len()),
            forall|i: int|
                #![trigger self@[i]]
                0 <= i < super::shortest2(self@.len(), mask@.len()) ==>
                    mask@[i] ==> self@[i].add_req(value),
        ensures
            super::kept_from(
                old(output)@,
                final(output)@,
                super::shortest2(self@.len(), mask@.len()),
            ),
            forall|i: int|
                0 <= i < super::shortest2(self@.len(), mask@.len()) ==>
                    (
                        mask@[i] ==>
                            crate::operators::add_returns(
                                self@[i],
                                value,
                                #[trigger] final(output)@[i],
                            )
                    )
                    && (!mask@[i] ==> final(output)@[i] == self@[i]),
            <T as AddSpec<U>>::obeys_add_spec() ==> forall|i: int|
                0 <= i < super::shortest2(self@.len(), mask@.len()) ==>
                    #[trigger] final(output)@[i] == (
                        if mask@[i] { self@[i].add_spec(value) } else { self@[i] }
                    ),
    {
        self.map2(mask, output,
            |s_i: T, m_i: bool| -> (r: T)
                requires
                    m_i ==> s_i.add_req(value),
                ensures
                    (m_i ==> crate::operators::add_returns(s_i, value, r)) && (!m_i ==> r == s_i),
                    <T as AddSpec<U>>::obeys_add_spec() ==>
                        r == (if m_i { s_i.add_spec(value) } else { s_i }),
                { if m_i { s_i + value } else { s_i } }
        );
    }

    /// `output[i] = self[i] + layer_b[i]` where `mask[i]` is true, else
    /// `output[i] = self[i]`.
    pub fn add_layer_by_mask<U>(
        &self,
        layer_b: &Layer<U>,
        mask: &Layer<bool>,
        output: &mut Self,
    ) where
        T: Add<U, Output = T>,
        U: Copy + Default,
        requires
            old(output)@.len() >= super::shortest3(self@.len(), layer_b@.len(), mask@.len()),
            forall|i: int|
                #![trigger self@[i]]
                0 <= i < super::shortest3(self@.len(), layer_b@.len(), mask@.len()) ==>
                    mask@[i] ==> self@[i].add_req(layer_b@[i]),
        ensures
            super::kept_from(
                old(output)@,
                final(output)@,
                super::shortest3(self@.len(), layer_b@.len(), mask@.len()),
            ),
            forall|i: int|
                0 <= i < super::shortest3(self@.len(), layer_b@.len(), mask@.len()) ==>
                    (
                        mask@[i] ==>
                            crate::operators::add_returns(
                                self@[i],
                                layer_b@[i],
                                #[trigger] final(output)@[i],
                            )
                    )
                    && (!mask@[i] ==> final(output)@[i] == self@[i]),
            <T as AddSpec<U>>::obeys_add_spec() ==> forall|i: int|
                0 <= i < super::shortest3(self@.len(), layer_b@.len(), mask@.len()) ==>
                    #[trigger] final(output)@[i] == (
                        if mask@[i] { self@[i].add_spec(layer_b@[i]) } else { self@[i] }
                    ),
    {
        self.map3(layer_b, mask, output,
            |s_i: T, b_i: U, m_i: bool| -> (r: T)
                requires
                    m_i ==> s_i.add_req(b_i),
                ensures
                    (m_i ==> crate::operators::add_returns(s_i, b_i, r)) && (!m_i ==> r == s_i),
                    <T as AddSpec<U>>::obeys_add_spec() ==>
                        r == (if m_i { s_i.add_spec(b_i) } else { s_i }),
                { if m_i { s_i + b_i } else { s_i } }
        );
    }

    /// `output[i] = self[i] - value`
    pub fn sub_value<U>(&self, value: U, output: &mut Self) where
        T: Sub<U, Output = T>,
        U: Copy,
        requires
            old(output)@.len() >= self@.len(),
            forall|i: int|
                #![trigger self@[i]]
                0 <= i < self@.len() ==> self@[i].sub_req(value),
        ensures
            super::kept_from(old(output)@, final(output)@, self@.len()),
            forall|i: int|
                0 <= i < self@.len() ==>
                    crate::operators::sub_returns(self@[i], value, #[trigger] final(output)@[i]),
            <T as SubSpec<U>>::obeys_sub_spec() ==> forall|i: int|
                0 <= i < self@.len() ==> #[trigger] final(output)@[i] == self@[i].sub_spec(value),
    {
        self.map1_with(value, output,
            |s_i: T, v: U| -> (r: T)
                requires
                    s_i.sub_req(v),
                ensures
                    crate::operators::sub_returns(s_i, v, r),
                    <T as SubSpec<U>>::obeys_sub_spec() ==> r == s_i.sub_spec(v),
                { s_i - v }
        );
    }

    /// `output[i] = self[i] - layer_b[i]`
    pub fn sub_layer<U>(&self, layer_b: &Layer<U>, output: &mut Self) where
        T: Sub<U, Output = T>,
        U: Copy + Default,
        requires
            old(output)@.len() >= super::shortest2(self@.len(), layer_b@.len()),
            forall|i: int|
                #![trigger self@[i]]
                0 <= i < super::shortest2(self@.len(), layer_b@.len()) ==>
                    self@[i].sub_req(layer_b@[i]),
        ensures
            super::kept_from(
                old(output)@,
                final(output)@,
                super::shortest2(self@.len(), layer_b@.len()),
            ),
            forall|i: int|
                0 <= i < super::shortest2(self@.len(), layer_b@.len()) ==>
                    crate::operators::sub_returns(
                        self@[i],
                        layer_b@[i],
                        #[trigger] final(output)@[i],
                    ),
            <T as SubSpec<U>>::obeys_sub_spec() ==> forall|i: int|
                0 <= i < super::shortest2(self@.len(), layer_b@.len()) ==>
                    #[trigger] final(output)@[i] == self@[i].sub_spec(layer_b@[i]),
    {
        self.map2(layer_b, output,
            |s_i: T, b_i: U| -> (r: T)
                requires
                    s_i.sub_req(b_i),
                ensures
                    crate::operators::sub_returns(s_i, b_i, r),
                    <T as SubSpec<U>>::obeys_sub_spec() ==> r == s_i.sub_spec(b_i),
                { s_i - b_i }
        );
    }

    /// `output[i] = self[i] - weights[i] * value`
    pub fn sub_value_weighted<U, W, X>(&self, weights: &Layer<W>, value: U, output: &mut Self) where
        T: Sub<X, Output = T>,
        W: Copy + Default + Mul<U, Output = X>,
        U: Copy,
        requires
            old(output)@.len() >= super::shortest2(self@.len(), weights@.len()),
            <W as MulSpec<U>>::obeys_mul_spec(),
            forall|i: int|
                #![trigger self@[i]]
                0 <= i < super::shortest2(self@.len(), weights@.len()) ==> {
                    &&& weights@[i].mul_req(value)
                    &&& self@[i].sub_req(weights@[i].mul_spec(value))
                },
        ensures
            super::kept_from(
                old(output)@,
                final(output)@,
                super::shortest2(self@.len(), weights@.len()),
            ),
            forall|i: int|
                0 <= i < super::shortest2(self@.len(), weights@.len()) ==>
                    crate::operators::sub_returns(
                        self@[i],
                        weights@[i].mul_spec(value),
                        #[trigger] final(output)@[i],
                    ),
            <T as SubSpec<X>>::obeys_sub_spec() ==> forall|i: int|
                0 <= i < super::shortest2(self@.len(), weights@.len()) ==>
                    #[trigger] final(output)@[i] == self@[i].sub_spec(weights@[i].mul_spec(value)),
    {
        self.map2(weights, output,
            |s_i: T, w_i: W| -> (r: T)
                requires
                    <W as MulSpec<U>>::obeys_mul_spec(),
                    w_i.mul_req(value),
                    s_i.sub_req(w_i.mul_spec(value)),
                ensures
                    crate::operators::sub_returns(s_i, w_i.mul_spec(value), r),
                    <T as SubSpec<X>>::obeys_sub_spec() ==> r == s_i.sub_spec(w_i.mul_spec(value)),
                { s_i - w_i * value }
        );
    }

    /// `output[i] = self[i] - weights[i] * layer_b[i]`
    pub fn sub_layer_weighted<U, W, X>(
        &self,
        layer_b: &Layer<U>,
        weights: &Layer<W>,
        output: &mut Self,
    ) where
        T: Sub<X, Output = T>,
        U: Copy + Default,
        W: Copy + Default + Mul<U, Output = X>,
        requires
            old(output)@.len() >= super::shortest3(self@.len(), layer_b@.len(), weights@.len()),
            <W as MulSpec<U>>::obeys_mul_spec(),
            forall|i: int|
                #![trigger self@[i]]
                0 <= i < super::shortest3(self@.len(), layer_b@.len(), weights@.len()) ==> {
                    &&& weights@[i].mul_req(layer_b@[i])
                    &&& self@[i].sub_req(weights@[i].mul_spec(layer_b@[i]))
                },
        ensures
            super::kept_from(
                old(output)@,
                final(output)@,
                super::shortest3(self@.len(), layer_b@.len(), weights@.len()),
            ),
            forall|i: int|
                0 <= i < super::shortest3(self@.len(), layer_b@.len(), weights@.len()) ==>
                    crate::operators::sub_returns(
                        self@[i],
                        weights@[i].mul_spec(layer_b@[i]),
                        #[trigger] final(output)@[i],
                    ),
            <T as SubSpec<X>>::obeys_sub_spec() ==> forall|i: int|
                0 <= i < super::shortest3(self@.len(), layer_b@.len(), weights@.len()) ==>
                    #[trigger] final(output)@[i] == self@[i].sub_spec(
                        weights@[i].mul_spec(layer_b@[i]),
                    ),
    {
        self.map3(layer_b, weights, output,
            |s_i: T, b_i: U, w_i: W| -> (r: T)
                requires
                    <W as MulSpec<U>>::obeys_mul_spec(),
                    w_i.mul_req(b_i),
                    s_i.sub_req(w_i.mul_spec(b_i)),
                ensures
                    crate::operators::sub_returns(s_i, w_i.mul_spec(b_i), r),
                    <T as SubSpec<X>>::obeys_sub_spec() ==> r == s_i.sub_spec(w_i.mul_spec(b_i)),
                { s_i - w_i * b_i }
        );
    }

    /// `output[i] = self[i] - value` where `mask[i]` is true, else
    /// `output[i] = self[i]`.
    pub fn sub_value_by_mask<U>(&self, value: U, mask: &Layer<bool>, output: &mut Self) where
        T: Sub<U, Output = T>,
        U: Copy,
        requires
            old(output)@.len() >= super::shortest2(self@.len(), mask@.len()),
            forall|i: int|
                #![trigger self@[i]]
                0 <= i < super::shortest2(self@.len(), mask@.len()) ==>
                    mask@[i] ==> self@[i].sub_req(value),
        ensures
            super::kept_from(
                old(output)@,
                final(output)@,
                super::shortest2(self@.len(), mask@.len()),
            ),
            forall|i: int|
                0 <= i < super::shortest2(self@.len(), mask@.len()) ==>
                    (
                        mask@[i] ==>
                            crate::operators::sub_returns(
                                self@[i],
                                value,
                                #[trigger] final(output)@[i],
                            )
                    )
                    && (!mask@[i] ==> final(output)@[i] == self@[i]),
            <T as SubSpec<U>>::obeys_sub_spec() ==> forall|i: int|
                0 <= i < super::shortest2(self@.len(), mask@.len()) ==>
                    #[trigger] final(output)@[i] == (
                        if mask@[i] { self@[i].sub_spec(value) } else { self@[i] }
                    ),
    {
        self.map2(mask, output,
            |s_i: T, m_i: bool| -> (r: T)
                requires
                    m_i ==> s_i.sub_req(value),
                ensures
                    (m_i ==> crate::operators::sub_returns(s_i, value, r)) && (!m_i ==> r == s_i),
                    <T as SubSpec<U>>::obeys_sub_spec() ==>
                        r == (if m_i { s_i.sub_spec(value) } else { s_i }),
                { if m_i { s_i - value } else { s_i } }
        );
    }

    /// `output[i] = self[i] - layer_b[i]` where `mask[i]` is true, else
    /// `output[i] = self[i]`.
    pub fn sub_layer_by_mask<U>(
        &self,
        layer_b: &Layer<U>,
        mask: &Layer<bool>,
        output: &mut Self,
    ) where
        T: Sub<U, Output = T>,
        U: Copy + Default,
        requires
            old(output)@.len() >= super::shortest3(self@.len(), layer_b@.len(), mask@.len()),
            forall|i: int|
                #![trigger self@[i]]
                0 <= i < super::shortest3(self@.len(), layer_b@.len(), mask@.len()) ==>
                    mask@[i] ==> self@[i].sub_req(layer_b@[i]),
        ensures
            super::kept_from(
                old(output)@,
                final(output)@,
                super::shortest3(self@.len(), layer_b@.len(), mask@.len()),
            ),
            forall|i: int|
                0 <= i < super::shortest3(self@.len(), layer_b@.len(), mask@.len()) ==>
                    (
                        mask@[i] ==>
                            crate::operators::sub_returns(
                                self@[i],
                                layer_b@[i],
                                #[trigger] final(output)@[i],
                            )
                    )
                    && (!mask@[i] ==> final(output)@[i] == self@[i]),
            <T as SubSpec<U>>::obeys_sub_spec() ==> forall|i: int|
                0 <= i < super::shortest3(self@.len(), layer_b@.len(), mask@.len()) ==>
                    #[trigger] final(output)@[i] == (
                        if mask@[i] { self@[i].sub_spec(layer_b@[i]) } else { self@[i] }
                    ),
    {
        self.map3(layer_b, mask, output,
            |s_i: T, b_i: U, m_i: bool| -> (r: T)
                requires
                    m_i ==> s_i.sub_req(b_i),
                ensures
                    (m_i ==> crate::operators::sub_returns(s_i, b_i, r)) && (!m_i ==> r == s_i),
                    <T as SubSpec<U>>::obeys_sub_spec() ==>
                        r == (if m_i { s_i.sub_spec(b_i) } else { s_i }),
                { if m_i { s_i - b_i } else { s_i } }
        );
    }

    /// `output[i] = self[i] + value`, taken entry by entry
    pub fn entrywise_add_value<U>(&self, value: U, output: &mut Self) where
        T: EntrywiseAdd<U, Output = T>,
        U: Copy,
        requires
            old(output)@.len() >= self@.len(),
            forall|i: int|
                #![trigger self@[i]]
                0 <= i < self@.len() ==> self@[i].entrywise_add_req(value),
        ensures
            super::kept_from(old(output)@, final(output)@, self@.len()),
            forall|i: int|
                0 <= i < self@.len() ==>
                    #[trigger] final(output)@[i] == self@[i].entrywise_add_spec(value),
    {
        self.map1_with(value, output,
            |s_i: T, v: U| -> (r: T)
                requires
                    s_i.entrywise_add_req(v),
                ensures
                    r == s_i.entrywise_add_spec(v),
                { s_i.entrywise_add(v) }
        );
    }

    /// `output[i] = self[i] + layer_b[i]`, taken entry by entry
    pub fn entrywise_add_layer<U>(&self, layer_b: &Layer<U>, output: &mut Self) where
        T: EntrywiseAdd<U, Output = T>,
        U: Copy + Default,
        requires
            old(output)@.len() >= super::shortest2(self@.len(), layer_b@.len()),
            forall|i: int|
                #![trigger self@[i]]
                0 <= i < super::shortest2(self@.len(), layer_b@.len()) ==>
                    self@[i].entrywise_add_req(layer_b@[i]),
        ensures
            super::kept_from(
                old(output)@,
                final(output)@,
                super::shortest2(self@.len(), layer_b@.len()),
            ),
            forall|i: int|
                0 <= i < super::shortest2(self@.len(), layer_b@.len()) ==>
                    #[trigger] final(output)@[i] == self@[i].entrywise_add_spec(layer_b@[i]),
    {
        self.map2(layer_b, output,
            |s_i: T, b_i: U| -> (r: T)
                requires
                    s_i.entrywise_add_req(b_i),
                ensures
                    r == s_i.entrywise_add_spec(b_i),
                { s_i.entrywise_add(b_i) }
        );
    }

    /// `output[i] = self[i] + weights[i] * value`, taken entry by entry
    pub fn entrywise_add_value_weighted<U, W, X>(
        &self,
        value: U,
        weights: &Layer<W>,
        output: &mut Self,
    ) where
        T: EntrywiseAdd<X, Output = T>,
        U: Copy,
        W: Copy + Default + Mul<U, Output = X>,
        requires
            old(output)@.len() >= super::shortest2(self@.len(), weights@.len()),
            <W as MulSpec<U>>::obeys_mul_spec(),
            forall|i: int|
                #![trigger self@[i]]
                0 <= i < super::shortest2(self@.len(), weights@.len()) ==> {
                    &&& weights@[i].mul_req(value)
                    &&& self@[i].entrywise_add_req(weights@[i].mul_spec(value))
                },
        ensures
            super::kept_from(
                old(output)@,
                final(output)@,
                super::shortest2(self@.len(), weights@.len()),
            ),
            forall|i: int|
                0 <= i < super::shortest2(self@.len(), weights@.len()) ==>
                    #[trigger] final(output)@[i] == self@[i].entrywise_add_spec(
                        weights@[i].mul_spec(value),
                    ),
    {
        self.map2(weights, output,
            |s_i: T, w_i: W| -> (r: T)
                requires
                    <W as MulSpec<U>>::obeys_mul_spec(),
                    w_i.mul_req(value),
                    s_i.entrywise_add_req(w_i.mul_spec(value)),
                ensures
                    r == s_i.entrywise_add_spec(w_i.mul_spec(value)),
                { s_i.entrywise_add(w_i * value) }
        );
    }

    /// `output[i] = self[i] + weights[i] * layer_b[i]`, taken entry by entry
    pub fn entrywise_add_layer_weighted<U, W, X>(
        &self,
        layer_b: &Layer<U>,
        weights: &Layer<W>,
        output: &mut Self,
    ) where
        T: EntrywiseAdd<X, Output = T>,
        U: Copy + Default,
        W: Copy + Default + Mul<U, Output = X>,
        requires
            old(output)@.len() >= super::shortest3(self@.len(), layer_b@.len(), weights@.len()),
            <W as MulSpec<U>>::obeys_mul_spec(),
            forall|i: int|
                #![trigger self@[i]]
                0 <= i < super::shortest3(self@.len(), layer_b@.len(), weights@.len()) ==> {
                    &&& weights@[i].mul_req(layer_b@[i])
                    &&& self@[i].entrywise_add_req(weights@[i].mul_spec(layer_b@[i]))
                },
        ensures
            super::kept_from(
                old(output)@,
                final(output)@,
                super::shortest3(self@.len(), layer_b@.len(), weights@.len()),
            ),
            forall|i: int|
                0 <= i < super::shortest3(self@.len(), layer_b@.len(), weights@.len()) ==>
                    #[trigger] final(output)@[i] == self@[i].entrywise_add_spec(
                        weights@[i].mul_spec(layer_b@[i]),
                    ),
    {
        self.map3(layer_b, weights, output,
            |s_i: T, b_i: U, w_i: W| -> (r: T)
                requires
                    <W as MulSpec<U>>::obeys_mul_spec(),
                    w_i.mul_req(b_i),
                    s_i.entrywise_add_req(w_i.mul_spec(b_i)),
                ensures
                    r == s_i.entrywise_add_spec(w_i.mul_spec(b_i)),
                { s_i.entrywise_add(w_i * b_i) }
        );
    }

    /// `output[i] = self[i] + value`, taken entry by entry where `mask[i]` is true, else
    /// `output[i] = self[i]`.
    pub fn entrywise_add_value_by_mask<U>(
        &self,
        value: U,
        mask: &Layer<bool>,
        output: &mut Self,
    ) where
        T: EntrywiseAdd<U, Output = T>,
        U: Copy,
        requires
            old(output)@.len() >= super::shortest2(self@.len(), mask@.len()),
            forall|i: int|
                #![trigger self@[i]]
                0 <= i < super::shortest2(self@.len(), mask@.len()) ==>
                    mask@[i] ==> self@[i].entrywise_add_req(value),
        ensures
            super::kept_from(
                old(output)@,
                final(output)@,
                super::shortest2(self@.len(), mask@.len()),
            ),
            forall|i: int|
                0 <= i < super::shortest2(self@.len(), mask@.len()) ==>
                    #[trigger] final(output)@[i] == (
                        if mask@[i] { self@[i].entrywise_add_spec(value) } else { self@[i] }
                    ),
    {
        self.map2(mask, output,
            |s_i: T, m_i: bool| -> (r: T)
                requires
                    m_i ==> s_i.entrywise_add_req(value),
                ensures
                    r == (if m_i { s_i.entrywise_add_spec(value) } else { s_i }),
                { if m_i { s_i.entrywise_add(value) } else { s_i } }
        );
    }

    /// `output[i] = self[i] + layer_b[i]`, taken entry by entry where `mask[i]` is true, else
    /// `output[i] = self[i]`.
    pub fn entrywise_add_layer_by_mask<U>(
        &self,
        layer_b: &Layer<U>,
        mask: &Layer<bool>,
        output: &mut Self,
    ) where
        T: EntrywiseAdd<U, Output = T>,
        U: Copy + Default,
        requires
            old(output)@.len() >= super::shortest3(self@.len(), layer_b@.len(), mask@.len()),
            forall|i: int|
                #![trigger self@[i]]
                0 <= i < super::shortest3(self@.len(), layer_b@.len(), mask@.len()) ==>
                    mask@[i] ==> self@[i].entrywise_add_req(layer_b@[i]),
        ensures
            super::kept_from(
                old(output)@,
                final(output)@,
                super::shortest3(self@.len(), layer_b@.len(), mask@.len()),
            ),
            forall|i: int|
                0 <= i < super::shortest3(self@.len(), layer_b@.len(), mask@.len()) ==>
                    #[trigger] final(output)@[i] == (
                        if mask@[i] { self@[i].entrywise_add_spec(layer_b@[i]) } else { self@[i] }
                    ),
    {
        self.map3(layer_b, mask, output,
            |s_i: T, b_i: U, m_i: bool| -> (r: T)
                requires
                    m_i ==> s_i.entrywise_add_req(b_i),
                ensures
                    r == (if m_i { s_i.entrywise_add_spec(b_i) } else { s_i }),
                { if m_i { s_i.entrywise_add(b_i) } else { s_i } }
        );
    }

    /// `output[i] = self[i] - value`, taken entry by entry
    pub fn entrywise_sub_value<U>(&self, value: U, output: &mut Self) where
        T: EntrywiseSub<U, Output = T>,
        U: Copy,
        requires
            old(output)@.len() >= self@.len(),
            forall|i: int|
                #![trigger self@[i]]
                0 <= i < self@.len() ==> self@[i].entrywise_sub_req(value),
        ensures
            super::kept_from(old(output)@, final(output)@, self@.len()),
            forall|i: int|
                0 <= i < self@.len() ==>
                    #[trigger] final(output)@[i] == self@[i].entrywise_sub_spec(value),
    {
        self.map1_with(value, output,
            |s_i: T, v: U| -> (r: T)
                requires
                    s_i.entrywise_sub_req(v),
                ensures
                    r == s_i.entrywise_sub_spec(v),
                { s_i.entrywise_sub(v) }
        );
    }

    /// `output[i] = self[i] - layer_b[i]`, taken entry by entry
    pub fn entrywise_sub_layer<U>(&self, layer_b: &Layer<U>, output: &mut Self) where
        T: EntrywiseSub<U, Output = T>,
        U: Copy + Default,
        requires
            old(output)@.len() >= super::shortest2(self@.len(), layer_b@.len()),
            forall|i: int|
                #![trigger self@[i]]
                0 <= i < super::shortest2(self@.len(), layer_b@.len()) ==>
                    self@[i].entrywise_sub_req(layer_b@[i]),
        ensures
            super::kept_from(
                old(output)@,
                final(output)@,
                super::shortest2(self@.len(), layer_b@.len()),
            ),
            forall|i: int|
                0 <= i < super::shortest2(self@.len(), layer_b@.len()) ==>
                    #[trigger] final(output)@[i] == self@[i].entrywise_sub_spec(layer_b@[i]),
    {
        self.map2(layer_b, output,
            |s_i: T, b_i: U| -> (r: T)
                requires
                    s_i.entrywise_sub_req(b_i),
                ensures
                    r == s_i.entrywise_sub_spec(b_i),
                { s_i.entrywise_sub(b_i) }
        );
    }

    /// `output[i] = self[i] - weights[i] * value`, taken entry by entry
    pub fn entrywise_sub_value_weighted<U, W, X>(
        &self,
        weights: &Layer<W>,
        value: U,
        output: &mut Self,
    ) where
        T: EntrywiseSub<X, Output = T>,
        W: Copy + Default + Mul<U, Output = X>,
        U: Copy,
        requires
            old(output)@.len() >= super::shortest2(self@.len(), weights@.len()),
            <W as MulSpec<U>>::obeys_mul_spec(),
            forall|i: int|
                #![trigger self@[i]]
                0 <= i < super::shortest2(self@.len(), weights@.len()) ==> {
                    &&& weights@[i].mul_req(value)
                    &&& self@[i].entrywise_sub_req(weights@[i].mul_spec(value))
                },
        ensures
            super::kept_from(
                old(output)@,
                final(output)@,
                super::shortest2(self@.len(), weights@.len()),
            ),
            forall|i: int|
                0 <= i < super::shortest2(self@.len(), weights@.len()) ==>
                    #[trigger] final(output)@[i] == self@[i].entrywise_sub_spec(
                        weights@[i].mul_spec(value),
                    ),
    {
        self.map2(weights, output,
            |s_i: T, w_i: W| -> (r: T)
                requires
                    <W as MulSpec<U>>::obeys_mul_spec(),
                    w_i.mul_req(value),
                    s_i.entrywise_sub_req(w_i.mul_spec(value)),
                ensures
                    r == s_i.entrywise_sub_spec(w_i.mul_spec(value)),
                { s_i.entrywise_sub(w_i * value) }
        );
    }

    /// `output[i] = self[i] - weights[i] * layer_b[i]`, taken entry by entry
    pub fn entrywise_sub_layer_weighted<U, W, X>(
        &self,
        layer_b: &Layer<U>,
        weights: &Layer<W>,
        output: &mut Self,
    ) where
        T: EntrywiseSub<X, Output = T>,
        U: Copy + Default,
        W: Copy + Default + Mul<U, Output = X>,
        requires
            old(output)@.len() >= super::shortest3(self@.len(), layer_b@.len(), weights@.len()),
            <W as MulSpec<U>>::obeys_mul_spec(),
            forall|i: int|
                #![trigger self@[i]]
                0 <= i < super::shortest3(self@.len(), layer_b@.len(), weights@.len()) ==> {
                    &&& weights@[i].mul_req(layer_b@[i])
                    &&& self@[i].entrywise_sub_req(weights@[i].mul_spec(layer_b@[i]))
                },
        ensures
            super::kept_from(
                old(output)@,
                final(output)@,
                super::shortest3(self@.len(), layer_b@.len(), weights@.len()),
            ),
            forall|i: int|
                0 <= i < super::shortest3(self@.len(), layer_b@.len(), weights@.len()) ==>
                    #[trigger] final(output)@[i] == self@[i].entrywise_sub_spec(
                        weights@[i].mul_spec(layer_b@[i]),
                    ),
    {
        self.map3(layer_b, weights, output,
            |s_i: T, b_i: U, w_i: W| -> (r: T)
                requires
                    <W as MulSpec<U>>::obeys_mul_spec(),
                    w_i.mul_req(b_i),
                    s_i.entrywise_sub_req(w_i.mul_spec(b_i)),
                ensures
                    r == s_i.entrywise_sub_spec(w_i.mul_spec(b_i)),
                { s_i.entrywise_sub(w_i * b_i) }
        );
    }

    /// `output[i] = self[i] - value`, taken entry by entry where `mask[i]` is true, else
    /// `output[i] = self[i]`.
    pub fn entrywise_sub_value_by_mask<U>(
        &self,
        value: U,
        mask: &Layer<bool>,
        output: &mut Self,
    ) where
        T: EntrywiseSub<U, Output = T>,
        U: Copy,
        requires
            old(output)@.len() >= super::shortest2(self@.len(), mask@.len()),
            forall|i: int|
                #![trigger self@[i]]
                0 <= i < super::shortest2(self@.len(), mask@.len()) ==>
                    mask@[i] ==> self@[i].entrywise_sub_req(value),
        ensures
            super::kept_from(
                old(output)@,
                final(output)@,
                super::shortest2(self@.len(), mask@.len()),
            ),
            forall|i: int|
                0 <= i < super::shortest2(self@.len(), mask@.len()) ==>
                    #[trigger] final(output)@[i] == (
                        if mask@[i] { self@[i].entrywise_sub_spec(value) } else { self@[i] }
                    ),
    {
        self.map2(mask, output,
            |s_i: T, m_i: bool| -> (r: T)
                requires
                    m_i ==> s_i.entrywise_sub_req(value),
                ensures
                    r == (if m_i { s_i.entrywise_sub_spec(value) } else { s_i }),
                { if m_i { s_i.entrywise_sub(value) } else { s_i } }
        );
    }

    /// `output[i] = self[i] - layer_b[i]`, taken entry by entry where `mask[i]` is true, else
    /// `output[i] = self[i]`.
    pub fn entrywise_sub_layer_by_mask<U>(
        &self,
        layer_b: &Layer<U>,
        mask: &Layer<bool>,
        output: &mut Self,
    ) where
        T: EntrywiseSub<U, Output = T>,
        U: Copy + Default,
        requires
            old(output)@.len() >= super::shortest3(self@.len(), layer_b@.len(), mask@.len()),
            forall|i: int|
                #![trigger self@[i]]
                0 <= i < super::shortest3(self@.len(), layer_b@.len(), mask@.len()) ==>
                    mask@[i] ==> self@[i].entrywise_sub_req(layer_b@[i]),
        ensures
            super::kept_from(
                old(output)@,
                final(output)@,
                super::shortest3(self@.len(), layer_b@.len(), mask@.len()),
            ),
            forall|i: int|
                0 <= i < super::shortest3(self@.len(), layer_b@.len(), mask@.len()) ==>
                    #[trigger] final(output)@[i] == (
                        if mask@[i] { self@[i].entrywise_sub_spec(layer_b@[i]) } else { self@[i] }
                    ),
    {
        self.map3(layer_b, mask, output,
            |s_i: T, b_i: U, m_i: bool| -> (r: T)
                requires
                    m_i ==> s_i.entrywise_sub_req(b_i),
                ensures
                    r == (if m_i { s_i.entrywise_sub_spec(b_i) } else { s_i }),
                { if m_i { s_i.entrywise_sub(b_i) } else { s_i } }
        );
    }

    /// `output[i]` is the magnitude of `self[i]`.
    pub fn to_magnitudes<U>(&self, output: &mut Layer<U>) where
        T: Magnitude<Output = U>,
        U: Copy + Default,
        requires
            old(output)@.len() >= self@.len(),
        ensures
            super::kept_from(old(output)@, final(output)@, self@.len()),
            forall|i: int|
                0 <= i < self@.len() ==> #[trigger] final(output)@[i] == self@[i].magnitude_spec(),
    {
        self.map1(output,
            |s_i: T| -> (r: U)
                ensures
                    r == s_i.magnitude_spec(),
                { s_i.magnitude() }
        );
    }

    /// `output[i]` is the inverse of `self[i]`.
    pub fn inv(&self, output: &mut Self) where
        T: Inv,
        requires
            old(output)@.len() >= self@.len(),
            forall|i: int|
                #![trigger self@[i]]
                0 <= i < self@.len() ==> self@[i].inv_req(),
        ensures
            super::kept_from(old(output)@, final(output)@, self@.len()),
            forall|i: int|
                0 <= i < self@.len() ==> #[trigger] final(output)@[i] == self@[i].inv_spec(),
    {
        self.map1(output,
            |s_i: T| -> (r: T)
                requires
                    s_i.inv_req(),
                ensures
                    r == s_i.inv_spec(),
                { s_i.inv() }
        );
    }

    /// `output[i]` is the square root of `self[i]`.
    pub fn sqrt(&self, output: &mut Self) where
        T: SquareRoot,
        requires
            old(output)@.len() >= self@.len(),
            forall|i: int|
                #![trigger self@[i]]
                0 <= i < self@.len() ==> self@[i].square_root_req(),
        ensures
            super::kept_from(old(output)@, final(output)@, self@.len()),
            forall|i: int|
                0 <= i < self@.len() ==>
                    #[trigger] final(output)@[i] == self@[i].square_root_spec(),
    {
        self.map1(output,
            |s_i: T| -> (r: T)
                requires
                    s_i.square_root_req(),
                ensures
                    r == s_i.square_root_spec(),
                { s_i.square_root() }
        );
    }

    /// `output[i]` is the natural exponential of `self[i]`.
    pub fn e_x<U>(&self, output: &mut Layer<U>) where
        T: EX<Output = U>,
        U: Copy + Default,
        requires
            old(output)@.len() >= self@.len(),
            forall|i: int|
                #![trigger self@[i]]
                0 <= i < self@.len() ==> self@[i].e_x_req(),
        ensures
            super::kept_from(old(output)@, final(output)@, self@.len()),
            forall|i: int|
                0 <= i < self@.len() ==> #[trigger] final(output)@[i] == self@[i].e_x_spec(),
    {
        self.map1(output,
            |s_i: T| -> (r: U)
                requires
                    s_i.e_x_req(),
                ensures
                    r == s_i.e_x_spec(),
                { s_i.e_x() }
        );
    }

    /// `output[i]` is the entrywise inverse of `self[i]`.
    pub fn entrywise_inv(&self, output: &mut Self) where
        T: EntrywiseInv<Output = T>,
        requires
            old(output)@.len() >= self@.len(),
            forall|i: int|
                #![trigger self@[i]]
                0 <= i < self@.len() ==> self@[i].entrywise_inv_req(),
        ensures
            super::kept_from(old(output)@, final(output)@, self@.len()),
            forall|i: int|
                0 <= i < self@.len() ==>
                    #[trigger] final(output)@[i] == self@[i].entrywise_inv_spec(),
    {
        self.map1(output,
            |s_i: T| -> (r: T)
                requires
                    s_i.entrywise_inv_req(),
                ensures
                    r == s_i.entrywise_inv_spec(),
                { s_i.entrywise_inv() }
        );
    }

    /// `output[i]` is the entrywise square root of `self[i]`.
    pub fn entrywise_sqrt(&self, output: &mut Self) where
        T: EntrywiseSqrt<Output = T>,
        requires
            old(output)@.len() >= self@.len(),
            forall|i: int|
                #![trigger self@[i]]
                0 <= i < self@.len() ==> self@[i].entrywise_sqrt_req(),
        ensures
            super::kept_from(old(output)@, final(output)@, self@.len()),
            forall|i: int|
                0 <= i < self@.len() ==>
                    #[trigger] final(output)@[i] == self@[i].entrywise_sqrt_spec(),
    {
        self.map1(output,
            |s_i: T| -> (r: T)
                requires
                    s_i.entrywise_sqrt_req(),
                ensures
                    r == s_i.entrywise_sqrt_spec(),
                { s_i.entrywise_sqrt() }
        );
    }

    /// `output[i]` is the entrywise natural exponential of `self[i]`.
    pub fn entrywise_e_x(&self, output: &mut Self) where
        T: EntrywiseEX<Output = T>,
        requires
            old(output)@.len() >= self@.len(),
            forall|i: int|
                #![trigger self@[i]]
                0 <= i < self@.len() ==> self@[i].entrywise_e_x_req(),
        ensures
            super::kept_from(old(output)@, final(output)@, self@.len()),
            forall|i: int|
                0 <= i < self@.len() ==>
                    #[trigger] final(output)@[i] == self@[i].entrywise_e_x_spec(),
    {
        self.map1(output,
            |s_i: T| -> (r: T)
                requires
                    s_i.entrywise_e_x_req(),
                ensures
                    r == s_i.entrywise_e_x_spec(),
                { s_i.entrywise_e_x() }
        );
    }

    /// `output[i] = layer_b[i]` where `mask[i]` is true, else `output[i] = self[i]`.
    pub fn copy_into_selection(&self, layer_b: &Self, mask: &Layer<bool>, output: &mut Self)
        requires
            old(output)@.len() >= super::shortest3(self@.len(), layer_b@.len(), mask@.len()),
        ensures
            super::kept_from(
                old(output)@,
                final(output)@,
                super::shortest3(self@.len(), layer_b@.len(), mask@.len()),
            ),
            forall|i: int|
                0 <= i < super::shortest3(self@.len(), layer_b@.len(), mask@.len()) ==>
                    #[trigger] final(output)@[i] == (if mask@[i] { layer_b@[i] } else { self@[i] }),
    {
        self.map3(layer_b, mask, output,
            |s_i: T, b_i: T, m_i: bool| -> (r: T)
                ensures
                    r == (if m_i { b_i } else { s_i }),
                { if m_i { b_i } else { s_i } }
        );
    }

    /// `output[i] = value` where `mask[i]` is true, else `output[i] = self[i]`.
    pub fn fill_into_selection(&self, value: T, mask: &Layer<bool>, output: &mut Self)
        requires
            old(output)@.len() >= super::shortest2(self@.len(), mask@.len()),
        ensures
            super::kept_from(
                old(output)@,
                final(output)@,
                super::shortest2(self@.len(), mask@.len()),
            ),
            forall|i: int|
                0 <= i < super::shortest2(self@.len(), mask@.len()) ==>
                    #[trigger] final(output)@[i] == (if mask@[i] { value } else { self@[i] }),
    {
        self.map2(mask, output,
            |s_i: T, m_i: bool| -> (r: T)
                ensures
                    r == (if m_i { value } else { s_i }),
                { if m_i { value } else { s_i } }
        );
    }
}

} // verus!
