//! Operations on layers of scalars, as free functions.

use crate::bounded::Bounded;
use crate::inv::Inv;
use crate::layer::Layer;
use core::hash::Hash;
use core::ops::{Add, Div, Mul, Sub};
use std::collections::HashSet;
use vstd::prelude::*;
use vstd::std_specs::hash::obeys_key_model;
use vstd::std_specs::ops::{AddSpec, DivSpec, MulSpec, SubSpec};

verus! {

/// The element of `s` at the index that a scan which ended at `found` returns, or the
/// sentinel that the scan started from where `s` is empty.
pub open spec fn found_or<T>(s: Seq<T>, found: Option<int>, sentinel: T) -> T {
    if s.len() == 0 {
        sentinel
    } else {
        s[crate::layer::statistics::index_found(found)]
    }
}

/// The least element of `s`: the element at the index at which the scan for the minimum
/// ends, or the upper sentinel of the type where `s` is empty.
pub open spec fn min_of<T: PartialOrd + Bounded>(s: Seq<T>) -> T {
    found_or(
        s,
        crate::layer::statistics::running_min(s, T::MAX_BOUND, s.len() as int),
        T::MAX_BOUND,
    )
}

/// The greatest element of `s`: the element at the index at which the scan for the maximum
/// ends, or the lower sentinel of the type where `s` is empty.
pub open spec fn max_of<T: PartialOrd + Bounded>(s: Seq<T>) -> T {
    found_or(
        s,
        crate::layer::statistics::running_max(s, T::MIN_BOUND, s.len() as int),
        T::MIN_BOUND,
    )
}

/// Where the sentinels are the ends of a total order, the least and the greatest element of
/// a sequence that is not empty are elements of it, and every element lies between them.
pub proof fn lemma_min_of_max_of_are_extremes<T: PartialOrd + Bounded>(s: Seq<T>)
    requires
        crate::partial_ord::obeys_total_order::<T>(),
        crate::bounded::obeys_bounds::<T>(),
        s.len() > 0,
    ensures
        s.contains(min_of(s)),
        s.contains(max_of(s)),
        forall|i: int|
            0 <= i < s.len() ==> crate::partial_ord::less_eq(min_of(s), #[trigger] s[i])
                && crate::partial_ord::less_eq(s[i], max_of(s)),
{
    crate::layer::statistics::lemma_indices_found_are_extremes(s);
    let a = crate::layer::statistics::index_found(
        crate::layer::statistics::running_min(s, T::MAX_BOUND, s.len() as int),
    );
    let b = crate::layer::statistics::index_found(
        crate::layer::statistics::running_max(s, T::MIN_BOUND, s.len() as int),
    );
    assert(min_of(s) == s[a] && max_of(s) == s[b]);
    assert forall|i: int| 0 <= i < s.len() implies crate::partial_ord::less_eq(
        min_of(s),
        #[trigger] s[i],
    ) && crate::partial_ord::less_eq(s[i], max_of(s)) by {
        assert(!crate::partial_ord::less(s[i], s[a]));
        assert(!crate::partial_ord::less(s[b], s[i]));
        assert(crate::partial_ord::less(s[a], s[i]) || crate::partial_ord::less(s[i], s[a]) || s[a]
            == s[i]);
        assert(crate::partial_ord::less(s[i], s[b]) || crate::partial_ord::less(s[b], s[i]) || s[i]
            == s[b]);
    }
}

/// The least and the greatest element of a layer, found in one scan that starts from the
/// sentinels of the element type and compares strictly: of several equal elements the first
/// is returned. The sentinels are returned for an empty layer.
pub fn min_max<T>(layer: &Layer<T>) -> (r: (T, T)) where T: Copy + PartialOrd + Bounded
    ensures
        layer@.len() == 0 ==> r == (T::MAX_BOUND, T::MIN_BOUND),
        layer@.len() > 0 ==> exists|i: int, j: int|
            0 <= i < layer@.len() && 0 <= j < layer@.len() && r.0 == #[trigger] layer@[i] && r.1
                == #[trigger] layer@[j],
        crate::partial_ord::obeys_order::<T>() ==> r == (min_of(layer@), max_of(layer@)),
        crate::partial_ord::obeys_total_order::<T>() && crate::bounded::obeys_bounds::<T>()
            ==> forall|i: int|
            0 <= i < layer@.len() ==> crate::partial_ord::less_eq(r.0, #[trigger] layer@[i])
                && crate::partial_ord::less_eq(layer@[i], r.1),
{
    let elements = layer.as_slice();
    let n: usize = elements.len();
    if n == 0 {
        return (T::MAX_BOUND, T::MIN_BOUND);
    }
    proof {
        if crate::partial_ord::obeys_total_order::<T>() && crate::bounded::obeys_bounds::<T>() {
            lemma_min_of_max_of_are_extremes(layer@);
        }
    }
    let upper = T::MAX_BOUND;
    let lower = T::MIN_BOUND;
    let mut min_found: bool = false;
    let mut max_found: bool = false;
    let mut min = elements[0];
    let mut max = elements[0];
    let ghost mut min_at: Option<int> = None;
    let ghost mut max_at: Option<int> = None;
    let mut i: usize = 0;
    while i < n
        invariant
            i <= n,
            n > 0,
            n == layer@.len(),
            elements@ == layer@,
            upper == T::MAX_BOUND,
            lower == T::MIN_BOUND,
            crate::partial_ord::obeys_order::<T>() ==> {
                &&& min_at == crate::layer::statistics::running_min(layer@, T::MAX_BOUND, i as int)
                &&& max_at == crate::layer::statistics::running_max(layer@, T::MIN_BOUND, i as int)
            },
            min_found == (min_at is Some),
            max_found == (max_at is Some),
            min_at is Some ==> 0 <= min_at->0 < i,
            max_at is Some ==> 0 <= max_at->0 < i,
            min == layer@[crate::layer::statistics::index_found(min_at)],
            max == layer@[crate::layer::statistics::index_found(max_at)],
        decreases n - i,
    {
        let s_i = elements[i];
        let less = if min_found {
            s_i < min
        } else {
            s_i < upper
        };
        if less {
            min_found = true;
            min = s_i;
            proof {
                min_at = Some(i as int);
            }
        }
        let greater = if max_found {
            s_i > max
        } else {
            s_i > lower
        };
        if greater {
            max_found = true;
            max = s_i;
            proof {
                max_at = Some(i as int);
            }
        }
        i += 1;
    }
    (min, max)
}

/// The index of the greatest element of a layer, found as `min_max` finds it: the first of
/// several equal elements, and 0 where no element is greater than the lower sentinel.
pub fn max_index<T>(layer: &Layer<T>) -> (r: usize) where T: Copy + PartialOrd + Bounded
    ensures
        r < layer@.len() || r == 0,
        crate::partial_ord::obeys_order::<T>() ==> r == crate::layer::statistics::index_found(
            crate::layer::statistics::running_max(layer@, T::MIN_BOUND, layer@.len() as int),
        ),
{
    let elements = layer.as_slice();
    let n: usize = elements.len();
    let mut max = T::MIN_BOUND;
    let mut max_index: usize = 0;
    let ghost mut max_at: Option<int> = None;
    let mut i: usize = 0;
    while i < n
        invariant
            i <= n,
            n == layer@.len(),
            elements@ == layer@,
            crate::partial_ord::obeys_order::<T>() ==> max_at
                == crate::layer::statistics::running_max(layer@, T::MIN_BOUND, i as int),
            max_at is Some ==> 0 <= max_at->0 < i,
            max == (match max_at {
                Some(j) => layer@[j],
                None => T::MIN_BOUND,
            }),
            max_index == crate::layer::statistics::index_found(max_at),
        decreases n - i,
    {
        let s_i = elements[i];
        if s_i > max {
            max = s_i;
            max_index = i;
            proof {
                max_at = Some(i as int);
            }
        }
        i += 1;
    }
    max_index
}

/// Maps the range `[from_lower, from_upper]` to `[to_lower, to_upper]`:
/// `output[i] = (source[i] - from_lower) * factor + to_lower`, where `factor` is
/// `(to_upper - to_lower) / (from_upper - from_lower)`.
pub fn rescale_from_to<T>(
    source: &Layer<T>,
    output: &mut Layer<T>,
    from_lower: T,
    from_upper: T,
    to_lower: T,
    to_upper: T,
) where T: Copy + Sub<Output = T> + Mul<Output = T> + Add<Output = T> + Div<Output = T>
    requires
        old(output)@.len() >= source@.len(),
        <T as SubSpec<T>>::obeys_sub_spec(),
        <T as DivSpec<T>>::obeys_div_spec(),
        <T as MulSpec<T>>::obeys_mul_spec(),
        crate::layer::statistics::rescale_factor_req(from_lower, from_upper, to_lower, to_upper),
        forall|i: int|
            #![trigger source@[i]]
            0 <= i < source@.len() ==> crate::layer::statistics::rescaled_req(
                source@[i],
                from_lower,
                crate::layer::statistics::rescale_factor(
                    from_lower,
                    from_upper,
                    to_lower,
                    to_upper,
                ),
                to_lower,
            ),
    ensures
        crate::layer::kept_from(old(output)@, final(output)@, source@.len()),
        forall|i: int|
            0 <= i < source@.len() ==> crate::layer::statistics::rescaled_returns(
                source@[i],
                from_lower,
                crate::layer::statistics::rescale_factor(
                    from_lower,
                    from_upper,
                    to_lower,
                    to_upper,
                ),
                to_lower,
                #[trigger] final(output)@[i],
            ),
        <T as AddSpec<T>>::obeys_add_spec() ==> forall|i: int|
            0 <= i < source@.len() ==> #[trigger] final(output)@[i]
                == crate::layer::statistics::rescaled(
                source@[i],
                from_lower,
                crate::layer::statistics::rescale_factor(
                    from_lower,
                    from_upper,
                    to_lower,
                    to_upper,
                ),
                to_lower,
            ),
{
    let elements = source.as_slice();
    let n: usize = elements.len();
    let scaling_factor = (to_upper - to_lower) / (from_upper - from_lower);
    let mut i: usize = 0;
    while i < n
        invariant
            i <= n,
            n == source@.len(),
            elements@ == source@,
            output@.len() == old(output)@.len(),
            n <= output@.len(),
            <T as SubSpec<T>>::obeys_sub_spec(),
            <T as MulSpec<T>>::obeys_mul_spec(),
            forall|j: int|
                #![trigger source@[j]]
                0 <= j < n ==> crate::layer::statistics::rescaled_req(
                    source@[j],
                    from_lower,
                    scaling_factor,
                    to_lower,
                ),
            forall|j: int|
                0 <= j < i ==> crate::layer::statistics::rescaled_returns(
                    source@[j],
                    from_lower,
                    scaling_factor,
                    to_lower,
                    #[trigger] output@[j],
                ),
            <T as AddSpec<T>>::obeys_add_spec() ==> forall|j: int|
                0 <= j < i ==> #[trigger] output@[j] == crate::layer::statistics::rescaled(
                    source@[j],
                    from_lower,
                    scaling_factor,
                    to_lower,
                ),
            forall|j: int| i <= j < output@.len() ==> output@[j] == old(output)@[j],
        decreases n - i,
    {
        let s_i = elements[i];
        output.set(i, (s_i - from_lower) * scaling_factor + to_lower);
        i += 1;
    }
}

/// Maps the range between the least and the greatest element of `source`, as `min_max`
/// finds them, to `[to_lower, to_upper]`.
pub fn rescale_to<T>(source: &Layer<T>, output: &mut Layer<T>, to_lower: T, to_upper: T) where
    T: Copy + Sub<Output = T> + Mul<Output = T> + Add<Output = T> + Div<Output = T> + PartialOrd
        + Bounded,

    requires
        old(output)@.len() >= source@.len(),
        crate::partial_ord::obeys_order::<T>(),
        <T as SubSpec<T>>::obeys_sub_spec(),
        <T as DivSpec<T>>::obeys_div_spec(),
        <T as MulSpec<T>>::obeys_mul_spec(),
        crate::layer::statistics::rescale_factor_req(
            min_of(source@),
            max_of(source@),
            to_lower,
            to_upper,
        ),
        forall|i: int|
            #![trigger source@[i]]
            0 <= i < source@.len() ==> crate::layer::statistics::rescaled_req(
                source@[i],
                min_of(source@),
                crate::layer::statistics::rescale_factor(
                    min_of(source@),
                    max_of(source@),
                    to_lower,
                    to_upper,
                ),
                to_lower,
            ),
    ensures
        crate::layer::kept_from(old(output)@, final(output)@, source@.len()),
        forall|i: int|
            0 <= i < source@.len() ==> crate::layer::statistics::rescaled_returns(
                source@[i],
                min_of(source@),
                crate::layer::statistics::rescale_factor(
                    min_of(source@),
                    max_of(source@),
                    to_lower,
                    to_upper,
                ),
                to_lower,
                #[trigger] final(output)@[i],
            ),
        <T as AddSpec<T>>::obeys_add_spec() ==> forall|i: int|
            0 <= i < source@.len() ==> #[trigger] final(output)@[i]
                == crate::layer::statistics::rescaled(
                source@[i],
                min_of(source@),
                crate::layer::statistics::rescale_factor(
                    min_of(source@),
                    max_of(source@),
                    to_lower,
                    to_upper,
                ),
                to_lower,
            ),
{
    let (from_lower, from_upper) = min_max(source);
    rescale_from_to(source, output, from_lower, from_upper, to_lower, to_upper);
}

/// Maps the range between the least and the greatest element of `source`, as `min_max`
/// finds them, to a range of length one that starts at zero:
/// `output[i] = (source[i] - min) * inv(max - min)`.
pub fn normalize<T>(source: &Layer<T>, output: &mut Layer<T>) where
    T: Copy + Sub<Output = T> + Mul<Output = T> + Div<Output = T> + PartialOrd + Bounded + Inv,

    requires
        old(output)@.len() >= source@.len(),
        crate::partial_ord::obeys_order::<T>(),
        <T as SubSpec<T>>::obeys_sub_spec(),
        crate::layer::statistics::normalize_factor_req(min_of(source@), max_of(source@)),
        forall|i: int|
            #![trigger source@[i]]
            0 <= i < source@.len() ==> crate::layer::statistics::normalized_req(
                source@[i],
                min_of(source@),
                crate::layer::statistics::normalize_factor(min_of(source@), max_of(source@)),
            ),
    ensures
        crate::layer::kept_from(old(output)@, final(output)@, source@.len()),
        forall|i: int|
            0 <= i < source@.len() ==> crate::layer::statistics::normalized_returns(
                source@[i],
                min_of(source@),
                crate::layer::statistics::normalize_factor(min_of(source@), max_of(source@)),
                #[trigger] final(output)@[i],
            ),
        <T as MulSpec<T>>::obeys_mul_spec() ==> forall|i: int|
            0 <= i < source@.len() ==> #[trigger] final(output)@[i]
                == crate::layer::statistics::normalized(
                source@[i],
                min_of(source@),
                crate::layer::statistics::normalize_factor(min_of(source@), max_of(source@)),
            ),
{
    let (from_lower, from_upper) = min_max(source);
    let scaling_factor = (from_upper - from_lower).inv();
    let elements = source.as_slice();
    let n: usize = elements.len();
    let mut i: usize = 0;
    while i < n
        invariant
            i <= n,
            n == source@.len(),
            elements@ == source@,
            output@.len() == old(output)@.len(),
            n <= output@.len(),
            <T as SubSpec<T>>::obeys_sub_spec(),
            forall|j: int|
                #![trigger source@[j]]
                0 <= j < n ==> crate::layer::statistics::normalized_req(
                    source@[j],
                    from_lower,
                    scaling_factor,
                ),
            forall|j: int|
                0 <= j < i ==> crate::layer::statistics::normalized_returns(
                    source@[j],
                    from_lower,
                    scaling_factor,
                    #[trigger] output@[j],
                ),
            <T as MulSpec<T>>::obeys_mul_spec() ==> forall|j: int|
                0 <= j < i ==> #[trigger] output@[j] == crate::layer::statistics::normalized(
                    source@[j],
                    from_lower,
                    scaling_factor,
                ),
            forall|j: int| i <= j < output@.len() ==> output@[j] == old(output)@[j],
        decreases n - i,
    {
        let s_i = elements[i];
        output.set(i, (s_i - from_lower) * scaling_factor);
        i += 1;
    }
}

/// The set of the distinct elements of a layer.
pub fn unique<T>(layer: &Layer<T>) -> (set: HashSet<T>) where T: Copy + Default + Eq + Hash
    ensures
        obeys_key_model::<T>() ==> set@ == layer@.to_set(),
{
    layer.unique()
}

} // verus!
