//! Reductions of a layer to a few values, and the rescaling that builds on them.

use crate::bounded::Bounded;
use crate::div_usize::DivUsize;
use crate::inv::Inv;
use crate::layer::Layer;
use crate::normalize::Normalize;
use crate::to_numeric::ToNumeric;
use core::hash::Hash;
use core::ops::{Add, Div, Mul, Sub};
use std::collections::HashSet;
use vstd::prelude::*;
use vstd::std_specs::hash::obeys_key_model;
use vstd::std_specs::ops::{AddSpec, DivSpec, MulSpec, SubSpec};

verus! {

/// `start + s[0] + ... + s[n - 1]`, added from the left.
pub open spec fn sum_from<T: Add<Output = T>>(start: T, s: Seq<T>, n: int) -> T
    decreases n,
{
    if n <= 0 {
        start
    } else {
        sum_from(start, s, n - 1).add_spec(s[n - 1])
    }
}

/// Whether every addition of `sum_from(start, s, n)` may be made.
pub open spec fn sum_req<T: Add<Output = T>>(start: T, s: Seq<T>, n: int) -> bool {
    forall|k: int| #![trigger sum_from(start, s, k)] 0 <= k < n ==>
        sum_from(start, s, k).add_req(s[k])
}

/// `start + s[0] * w[0] + ... + s[n - 1] * w[n - 1]`, added from the left.
pub open spec fn weighted_sum_from<T, U>(start: T, s: Seq<T>, w: Seq<U>, n: int) -> T where
    T: Add<Output = T> + Mul<U, Output = T>,

    decreases n,
{
    if n <= 0 {
        start
    } else {
        weighted_sum_from(start, s, w, n - 1).add_spec(s[n - 1].mul_spec(w[n - 1]))
    }
}

/// Whether every multiplication and addition of `weighted_sum_from(start, s, w, n)` may be
/// made.
pub open spec fn weighted_sum_req<T, U>(start: T, s: Seq<T>, w: Seq<U>, n: int) -> bool where
    T: Add<Output = T> + Mul<U, Output = T>,
 {
    forall|k: int|
        #![trigger weighted_sum_from(start, s, w, k)]
        0 <= k < n ==> s[k].mul_req(w[k]) && weighted_sum_from(start, s, w, k).add_req(
            s[k].mul_spec(w[k]),
        )
}

/// The numbers by which the elements of `s` are ordered.
pub open spec fn keys_of<T: ToNumeric<U>, U>(s: Seq<T>) -> Seq<U> {
    Seq::new(s.len(), |i: int| s[i].numeric_proportional_spec())
}

/// The index that a scan of the first `n` keys holds as that of its minimum, where the scan
/// starts from the sentinel `bound` and moves on only to a strictly lesser key. `None`
/// when no key took the sentinel's place.
pub open spec fn running_min<K: PartialOrd>(keys: Seq<K>, bound: K, n: int) -> Option<int>
    decreases n,
{
    if n <= 0 {
        None
    } else {
        let before = running_min(keys, bound, n - 1);
        let least = match before {
            Some(j) => keys[j],
            None => bound,
        };
        if crate::partial_ord::less(keys[n - 1], least) {
            Some(n - 1)
        } else {
            before
        }
    }
}

/// The index that a scan of the first `n` keys holds as that of its maximum, where the scan
/// starts from the sentinel `bound` and moves on only to a strictly greater key. `None`
/// when no key took the sentinel's place.
pub open spec fn running_max<K: PartialOrd>(keys: Seq<K>, bound: K, n: int) -> Option<int>
    decreases n,
{
    if n <= 0 {
        None
    } else {
        let before = running_max(keys, bound, n - 1);
        let greatest = match before {
            Some(j) => keys[j],
            None => bound,
        };
        if crate::partial_ord::greater(keys[n - 1], greatest) {
            Some(n - 1)
        } else {
            before
        }
    }
}

/// The index that a scan which ended at `found` returns: the index found, or 0. Where the
/// sentinel that the scan started from is an end of the order, a scan of a sequence that is
/// not empty finds nothing only if every key equals the sentinel, and index 0 is then the
/// first of the extreme keys as well.
pub open spec fn index_found(found: Option<int>) -> int {
    match found {
        Some(j) => j,
        None => 0,
    }
}

/// Whether `value` is the element of `s` at the index that a scan which ended at `found`
/// returns, or a default value where `s` is empty.
pub open spec fn is_found<T: Default>(s: Seq<T>, found: Option<int>, value: T) -> bool {
    if s.len() == 0 {
        super::is_default(value)
    } else {
        value == s[index_found(found)]
    }
}

/// Whether `lo` and `hi` are the minimum and the maximum of `s` by its keys: the elements
/// at the indices at which the scans for the least and for the greatest key end, or default
/// values where `s` is empty.
pub open spec fn is_min_max<T, U>(s: Seq<T>, lo: T, hi: T) -> bool where
    T: Default + ToNumeric<U>,
    U: PartialOrd + Bounded,
 {
    &&& is_found(s, running_min(keys_of::<T, U>(s), U::MAX_BOUND, s.len() as int), lo)
    &&& is_found(s, running_max(keys_of::<T, U>(s), U::MIN_BOUND, s.len() as int), hi)
}

/// The factor by which a value is stretched when the range `[from_lower, from_upper]` is
/// mapped to `[to_lower, to_upper]`.
pub open spec fn rescale_factor<U>(
    from_lower: U,
    from_upper: U,
    to_lower: U,
    to_upper: U,
) -> U where
    U: Sub<Output = U> + Div<Output = U>,
 {
    to_upper.sub_spec(to_lower).div_spec(from_upper.sub_spec(from_lower))
}

/// Whether the operations of `rescale_factor` may be made.
pub open spec fn rescale_factor_req<U>(
    from_lower: U,
    from_upper: U,
    to_lower: U,
    to_upper: U,
) -> bool where U: Sub<Output = U> + Div<Output = U> {
    &&& to_upper.sub_req(to_lower)
    &&& from_upper.sub_req(from_lower)
    &&& to_upper.sub_spec(to_lower).div_req(from_upper.sub_spec(from_lower))
}

/// `(value - from_lower) * factor + to_lower`
pub open spec fn rescaled<T, U>(value: T, from_lower: U, factor: U, to_lower: U) -> T where
    T: Sub<U, Output = T> + Mul<U, Output = T> + Add<U, Output = T>,
 {
    value.sub_spec(from_lower).mul_spec(factor).add_spec(to_lower)
}

/// Whether the operations of `rescaled` may be made.
pub open spec fn rescaled_req<T, U>(value: T, from_lower: U, factor: U, to_lower: U) -> bool where
    T: Sub<U, Output = T> + Mul<U, Output = T> + Add<U, Output = T>,
 {
    &&& value.sub_req(from_lower)
    &&& value.sub_spec(from_lower).mul_req(factor)
    &&& value.sub_spec(from_lower).mul_spec(factor).add_req(to_lower)
}

/// Whether `r` is a value that `(value - from_lower) * factor + to_lower` may return, where
/// the subtraction and the multiplication obey their models. For an addition that obeys its
/// model, `r` is `rescaled(value, from_lower, factor, to_lower)`.
pub open spec fn rescaled_returns<T, U>(
    value: T,
    from_lower: U,
    factor: U,
    to_lower: U,
    r: T,
) -> bool where T: Sub<U, Output = T> + Mul<U, Output = T> + Add<U, Output = T> {
    crate::operators::add_returns(value.sub_spec(from_lower).mul_spec(factor), to_lower, r)
}

/// `(value - lower) * factor`
pub open spec fn normalized<T, U>(value: T, lower: U, factor: U) -> T where
    T: Sub<U, Output = T> + Mul<U, Output = T>,
 {
    value.sub_spec(lower).mul_spec(factor)
}

/// Whether the operations of `normalized` may be made.
pub open spec fn normalized_req<T, U>(value: T, lower: U, factor: U) -> bool where
    T: Sub<U, Output = T> + Mul<U, Output = T>,
 {
    &&& value.sub_req(lower)
    &&& value.sub_spec(lower).mul_req(factor)
}

/// Whether `r` is a value that `(value - lower) * factor` may return, where the subtraction
/// obeys its model. For a multiplication that obeys its model, `r` is
/// `normalized(value, lower, factor)`.
pub open spec fn normalized_returns<T, U>(value: T, lower: U, factor: U, r: T) -> bool where
    T: Sub<U, Output = T> + Mul<U, Output = T>,
 {
    crate::operators::mul_returns(value.sub_spec(lower), factor, r)
}

/// The factor that maps the range `[lower, upper]` to a range of length one.
pub open spec fn normalize_factor<U: Sub<Output = U> + Inv>(lower: U, upper: U) -> U {
    upper.sub_spec(lower).inv_spec()
}

/// Whether the operations of `normalize_factor` may be made.
pub open spec fn normalize_factor_req<U: Sub<Output = U> + Inv>(lower: U, upper: U) -> bool {
    &&& upper.sub_req(lower)
    &&& upper.sub_spec(lower).inv_req()
}

/// Under a total order the scan for the minimum of the first `n` keys ends at the first
/// of the least keys, which lies below the sentinel; it finds nothing only where no key
/// lies below the sentinel.
pub proof fn lemma_running_min_is_first_least<K: PartialOrd>(keys: Seq<K>, bound: K, n: int)
    requires
        crate::partial_ord::obeys_total_order::<K>(),
        0 <= n <= keys.len(),
    ensures
        match running_min(keys, bound, n) {
            Some(j) => {
                &&& 0 <= j < n
                &&& crate::partial_ord::less(keys[j], bound)
                &&& forall|i: int| 0 <= i < n ==>
                    !crate::partial_ord::less(#[trigger] keys[i], keys[j])
                &&& forall|i: int| 0 <= i < j ==>
                    crate::partial_ord::less(keys[j], #[trigger] keys[i])
            },
            None => forall|i: int| 0 <= i < n ==>
                !crate::partial_ord::less(#[trigger] keys[i], bound),
        },
    decreases n,
{
    if n > 0 {
        lemma_running_min_is_first_least(keys, bound, n - 1);
        let before = running_min(keys, bound, n - 1);
        let last = keys[n - 1];
        match before {
            Some(j) => {
                if crate::partial_ord::less(last, keys[j]) {
                    assert forall|i: int| 0 <= i < n implies !crate::partial_ord::less(
                        #[trigger] keys[i],
                        last,
                    ) by {
                        if i < n - 1 && crate::partial_ord::less(keys[i], last) {
                            assert(crate::partial_ord::less(keys[i], keys[j]));
                        }
                    }
                    assert forall|i: int| 0 <= i < n - 1 implies crate::partial_ord::less(
                        last,
                        #[trigger] keys[i],
                    ) by {
                        if !crate::partial_ord::less(last, keys[i]) {
                            assert(crate::partial_ord::less(keys[i], last) || keys[i] == last);
                            assert(!crate::partial_ord::less(keys[i], keys[j]));
                        }
                    }
                    assert(crate::partial_ord::less(last, bound));
                }
            },
            None => {
                if crate::partial_ord::less(last, bound) {
                    assert forall|i: int| 0 <= i < n implies !crate::partial_ord::less(
                        #[trigger] keys[i],
                        last,
                    ) by {
                        if i < n - 1 && crate::partial_ord::less(keys[i], last) {
                            assert(crate::partial_ord::less(keys[i], bound));
                        }
                    }
                    assert forall|i: int| 0 <= i < n - 1 implies crate::partial_ord::less(
                        last,
                        #[trigger] keys[i],
                    ) by {
                        if !crate::partial_ord::less(last, keys[i]) {
                            assert(crate::partial_ord::less(keys[i], last) || keys[i] == last);
                            assert(crate::partial_ord::less(keys[i], bound));
                        }
                    }
                }
            },
        }
    }
}

/// Under a total order the scan for the maximum of the first `n` keys ends at the first
/// of the greatest keys, which lies above the sentinel; it finds nothing only where no key
/// lies above the sentinel.
pub proof fn lemma_running_max_is_first_greatest<K: PartialOrd>(keys: Seq<K>, bound: K, n: int)
    requires
        crate::partial_ord::obeys_total_order::<K>(),
        0 <= n <= keys.len(),
    ensures
        match running_max(keys, bound, n) {
            Some(j) => {
                &&& 0 <= j < n
                &&& crate::partial_ord::less(bound, keys[j])
                &&& forall|i: int| 0 <= i < n ==>
                    !crate::partial_ord::less(keys[j], #[trigger] keys[i])
                &&& forall|i: int| 0 <= i < j ==>
                    crate::partial_ord::less(#[trigger] keys[i], keys[j])
            },
            None => forall|i: int| 0 <= i < n ==>
                !crate::partial_ord::less(bound, #[trigger] keys[i]),
        },
    decreases n,
{
    if n > 0 {
        lemma_running_max_is_first_greatest(keys, bound, n - 1);
        let before = running_max(keys, bound, n - 1);
        let last = keys[n - 1];
        match before {
            Some(j) => {
                if crate::partial_ord::less(keys[j], last) {
                    assert forall|i: int| 0 <= i < n implies !crate::partial_ord::less(
                        last,
                        #[trigger] keys[i],
                    ) by {
                        if i < n - 1 && crate::partial_ord::less(last, keys[i]) {
                            assert(crate::partial_ord::less(keys[j], keys[i]));
                        }
                    }
                    assert forall|i: int| 0 <= i < n - 1 implies crate::partial_ord::less(
                        #[trigger] keys[i],
                        last,
                    ) by {
                        if !crate::partial_ord::less(keys[i], last) {
                            assert(crate::partial_ord::less(last, keys[i]) || keys[i] == last);
                            assert(!crate::partial_ord::less(keys[j], keys[i]));
                        }
                    }
                    assert(crate::partial_ord::less(bound, last));
                }
            },
            None => {
                if crate::partial_ord::less(bound, last) {
                    assert forall|i: int| 0 <= i < n implies !crate::partial_ord::less(
                        last,
                        #[trigger] keys[i],
                    ) by {
                        if i < n - 1 && crate::partial_ord::less(last, keys[i]) {
                            assert(crate::partial_ord::less(bound, keys[i]));
                        }
                    }
                    assert forall|i: int| 0 <= i < n - 1 implies crate::partial_ord::less(
                        #[trigger] keys[i],
                        last,
                    ) by {
                        if !crate::partial_ord::less(keys[i], last) {
                            assert(crate::partial_ord::less(last, keys[i]) || keys[i] == last);
                            assert(crate::partial_ord::less(bound, keys[i]));
                        }
                    }
                }
            },
        }
    }
}

/// Where the sentinels are the ends of a total order, a scan that finds nothing has seen
/// only keys that equal its sentinel.
pub proof fn lemma_scan_finds_nothing<K: PartialOrd + Bounded>(keys: Seq<K>, n: int)
    requires
        crate::partial_ord::obeys_total_order::<K>(),
        crate::bounded::obeys_bounds::<K>(),
        0 <= n <= keys.len(),
    ensures
        running_min(keys, K::MAX_BOUND, n) is None ==> forall|i: int|
            0 <= i < n ==> #[trigger] keys[i] == K::MAX_BOUND,
        running_max(keys, K::MIN_BOUND, n) is None ==> forall|i: int|
            0 <= i < n ==> #[trigger] keys[i] == K::MIN_BOUND,
{
    lemma_running_min_is_first_least(keys, K::MAX_BOUND, n);
    lemma_running_max_is_first_greatest(keys, K::MIN_BOUND, n);
    if running_min(keys, K::MAX_BOUND, n) is None {
        assert forall|i: int| 0 <= i < n implies #[trigger] keys[i] == K::MAX_BOUND by {
            assert(!crate::partial_ord::less(keys[i], K::MAX_BOUND));
            assert(!crate::partial_ord::less(K::MAX_BOUND, keys[i]));
            assert(crate::partial_ord::less(keys[i], K::MAX_BOUND) || crate::partial_ord::less(
                K::MAX_BOUND,
                keys[i],
            ) || keys[i] == K::MAX_BOUND);
        }
    }
    if running_max(keys, K::MIN_BOUND, n) is None {
        assert forall|i: int| 0 <= i < n implies #[trigger] keys[i] == K::MIN_BOUND by {
            assert(!crate::partial_ord::less(keys[i], K::MIN_BOUND));
            assert(!crate::partial_ord::less(K::MIN_BOUND, keys[i]));
            assert(crate::partial_ord::less(keys[i], K::MIN_BOUND) || crate::partial_ord::less(
                K::MIN_BOUND,
                keys[i],
            ) || keys[i] == K::MIN_BOUND);
        }
    }
}

/// Where the sentinels are the ends of a total order, the indices that the scans of a
/// sequence that is not empty return are those of the first least and of the first
/// greatest key, whether or not a key took a sentinel's place.
pub proof fn lemma_indices_found_are_extremes<K: PartialOrd + Bounded>(keys: Seq<K>)
    requires
        crate::partial_ord::obeys_total_order::<K>(),
        crate::bounded::obeys_bounds::<K>(),
        keys.len() > 0,
    ensures
        ({
            let j = index_found(running_min(keys, K::MAX_BOUND, keys.len() as int));
            &&& 0 <= j < keys.len()
            &&& forall|i: int|
                0 <= i < keys.len() ==> !crate::partial_ord::less(#[trigger] keys[i], keys[j])
            &&& forall|i: int| 0 <= i < j ==> crate::partial_ord::less(keys[j], #[trigger] keys[i])
        }),
        ({
            let j = index_found(running_max(keys, K::MIN_BOUND, keys.len() as int));
            &&& 0 <= j < keys.len()
            &&& forall|i: int|
                0 <= i < keys.len() ==> !crate::partial_ord::less(keys[j], #[trigger] keys[i])
            &&& forall|i: int| 0 <= i < j ==> crate::partial_ord::less(#[trigger] keys[i], keys[j])
        }),
{
    let n = keys.len() as int;
    lemma_running_min_is_first_least(keys, K::MAX_BOUND, n);
    lemma_running_max_is_first_greatest(keys, K::MIN_BOUND, n);
    lemma_scan_finds_nothing(keys, n);
    if running_min(keys, K::MAX_BOUND, n) is None {
        assert(keys[0] == K::MAX_BOUND);
    }
    if running_max(keys, K::MIN_BOUND, n) is None {
        assert(keys[0] == K::MIN_BOUND);
    }
}

/// Where the sentinels of the keys are the ends of a total order, the minimum and the
/// maximum of a sequence that is not empty are elements of it, and the key of every element
/// lies between their keys.
pub proof fn lemma_min_max_are_extremes<T, U>(s: Seq<T>, lo: T, hi: T) where
    T: Default + ToNumeric<U>,
    U: PartialOrd + Bounded,

    requires
        crate::partial_ord::obeys_total_order::<U>(),
        crate::bounded::obeys_bounds::<U>(),
        s.len() > 0,
        is_min_max::<T, U>(s, lo, hi),
    ensures
        s.contains(lo),
        s.contains(hi),
        forall|i: int|
            0 <= i < s.len() ==> {
                &&& crate::partial_ord::less_eq(
                    lo.numeric_proportional_spec(),
                    (#[trigger] s[i]).numeric_proportional_spec(),
                )
                &&& crate::partial_ord::less_eq(
                    s[i].numeric_proportional_spec(),
                    hi.numeric_proportional_spec(),
                )
            },
{
    let keys = keys_of::<T, U>(s);
    lemma_indices_found_are_extremes(keys);
    let a = index_found(running_min(keys, U::MAX_BOUND, s.len() as int));
    let b = index_found(running_max(keys, U::MIN_BOUND, s.len() as int));
    assert(lo == s[a] && hi == s[b]);
    assert forall|i: int| 0 <= i < s.len() implies {
        &&& crate::partial_ord::less_eq(
            lo.numeric_proportional_spec(),
            (#[trigger] s[i]).numeric_proportional_spec(),
        )
        &&& crate::partial_ord::less_eq(
            s[i].numeric_proportional_spec(),
            hi.numeric_proportional_spec(),
        )
    } by {
        assert(keys[i] == s[i].numeric_proportional_spec());
        assert(keys[a] == lo.numeric_proportional_spec());
        assert(keys[b] == hi.numeric_proportional_spec());
        assert(!crate::partial_ord::less(keys[i], keys[a]));
        assert(!crate::partial_ord::less(keys[b], keys[i]));
        assert(crate::partial_ord::less(keys[a], keys[i]) || crate::partial_ord::less(
            keys[i],
            keys[a],
        ) || keys[a] == keys[i]);
        assert(crate::partial_ord::less(keys[i], keys[b]) || crate::partial_ord::less(
            keys[b],
            keys[i],
        ) || keys[i] == keys[b]);
    }
}

/// The set of the first `n + 1` elements is that of the first `n`, with `s[n]` added.
proof fn lemma_prefix_set_grows<T>(s: Seq<T>, n: int)
    requires
        0 <= n < s.len(),
    ensures
        s.take(n + 1).to_set() == s.take(n).to_set().insert(s[n]),
{
    let longer = s.take(n + 1);
    let shorter = s.take(n);
    assert forall|a: T| longer.to_set().contains(a) == shorter.to_set().insert(s[n]).contains(
        a,
    ) by {
        if longer.contains(a) {
            let k = choose|k: int| 0 <= k < longer.len() && longer[k] == a;
            if k < n {
                assert(shorter[k] == a);
            }
        }
        if shorter.contains(a) {
            let k = choose|k: int| 0 <= k < shorter.len() && shorter[k] == a;
            assert(longer[k] == a);
        }
        if a == s[n] {
            assert(longer[n] == a);
        }
    }
    assert(longer.to_set() =~= shorter.to_set().insert(s[n]));
}

impl<T: Copy + Default> Layer<T> {
    /// The sum of the elements, added from the left onto a default value, divided by their
    /// number.
    pub fn average(&self) -> (r: T) where T: Add<Output = T> + DivUsize
        requires
            <T as AddSpec<T>>::obeys_add_spec(),
            forall|zero: T| #[trigger]
                super::is_default(zero) ==> {
                    &&& sum_req(zero, self@, self@.len() as int)
                    &&& sum_from(zero, self@, self@.len() as int).div_usize_req(
                        self@.len() as usize,
                    )
                },
        ensures
            exists|zero: T| #[trigger]
                super::is_default(zero) && r == sum_from(
                    zero,
                    self@,
                    self@.len() as int,
                ).div_usize_spec(self@.len() as usize),
    {
        let n: usize = self.len();
        let zero = T::default();
        assert(super::is_default(zero));
        let mut sum = zero;
        let mut i: usize = 0;
        while i < n
            invariant
                i <= n,
                n == self@.len(),
                <T as AddSpec<T>>::obeys_add_spec(),
                sum_req(zero, self@, n as int),
                sum == sum_from(zero, self@, i as int),
            decreases n - i,
        {
            sum = sum + self.get(i);
            i += 1;
        }
        sum.div_usize(n)
    }

    /// The sum of the elements, each multiplied by its weight, divided by the sum of the
    /// weights. Both sums are added from the left onto a default value, over the indices
    /// that `self` and `weights` both have.
    pub fn weighted_average<U>(&self, weights: &Layer<U>) -> (r: T) where
        T: Add<Output = T> + Mul<U, Output = T> + Div<U, Output = T>,
        U: Copy + Default + Add<Output = U>,

        requires
            <T as AddSpec<T>>::obeys_add_spec(),
            <T as MulSpec<U>>::obeys_mul_spec(),
            <U as AddSpec<U>>::obeys_add_spec(),
            forall|zero: T, none: U|
                #![trigger super::is_default(zero), super::is_default(none)]
                super::is_default(zero) && super::is_default(none) ==> {
                    let n = super::shortest2(self@.len(), weights@.len()) as int;
                    &&& weighted_sum_req(zero, self@, weights@, n)
                    &&& sum_req(none, weights@, n)
                    &&& weighted_sum_from(zero, self@, weights@, n).div_req(
                        sum_from(none, weights@, n),
                    )
                },
        ensures
            exists|zero: T, none: U|
                #![trigger super::is_default(zero), super::is_default(none)]
                {
                    let n = super::shortest2(self@.len(), weights@.len()) as int;
                    &&& super::is_default(zero)
                    &&& super::is_default(none)
                    &&& crate::operators::div_returns(
                        weighted_sum_from(zero, self@, weights@, n),
                        sum_from(none, weights@, n),
                        r,
                    )
                    &&& <T as DivSpec<U>>::obeys_div_spec() ==> r == weighted_sum_from(
                        zero,
                        self@,
                        weights@,
                        n,
                    ).div_spec(sum_from(none, weights@, n))
                },
    {
        let n: usize = if self.len() <= weights.len() {
            self.len()
        } else {
            weights.len()
        };
        let zero = T::default();
        let none = U::default();
        assert(super::is_default(zero) && super::is_default(none));
        let mut sum = zero;
        let mut weights_sum = none;
        let mut i: usize = 0;
        while i < n
            invariant
                i <= n,
                n == super::shortest2(self@.len(), weights@.len()),
                <T as AddSpec<T>>::obeys_add_spec(),
                <T as MulSpec<U>>::obeys_mul_spec(),
                <U as AddSpec<U>>::obeys_add_spec(),
                weighted_sum_req(zero, self@, weights@, n as int),
                sum_req(none, weights@, n as int),
                sum == weighted_sum_from(zero, self@, weights@, i as int),
                weights_sum == sum_from(none, weights@, i as int),
            decreases n - i,
        {
            let l_i = self.get(i);
            let w_i = weights.get(i);
            sum = sum + l_i * w_i;
            weights_sum = weights_sum + w_i;
            i += 1;
        }
        sum / weights_sum
    }

    /// The set of the distinct elements.
    pub fn unique(&self) -> (set: HashSet<T>) where T: Eq + Hash
        ensures
            obeys_key_model::<T>() ==> set@ == self@.to_set(),
    {
        broadcast use vstd::std_specs::hash::group_hash_axioms;

        let n: usize = self.len();
        let mut set: HashSet<T> = HashSet::new();
        let mut i: usize = 0;
        while i < n
            invariant
                i <= n,
                n == self@.len(),
                obeys_key_model::<T>() ==> set@ == self@.take(i as int).to_set(),
            decreases n - i,
        {
            proof {
                lemma_prefix_set_grows(self@, i as int);
            }
            set.insert(self.get(i));
            i += 1;
        }
        proof {
            assert(self@.take(n as int) == self@);
        }
        set
    }

    /// The elements with the least and the greatest key: those at the indices that
    /// `min_max_indices` finds, so of elements with equal keys the first is returned. Default
    /// values are returned for an empty layer.
    ///
    /// Where the keys are totally ordered and their sentinels are the ends of the order, the
    /// key of every element lies between the keys of the two results.
    pub fn min_max<U>(&self) -> (r: (T, T)) where T: ToNumeric<U>, U: Copy + PartialOrd + Bounded
        ensures
            self@.len() == 0 ==> super::is_default(r.0) && super::is_default(r.1),
            self@.len() > 0 ==> exists|i: int, j: int|
                0 <= i < self@.len() && 0 <= j < self@.len() && r.0 == #[trigger] self@[i] && r.1
                    == #[trigger] self@[j],
            crate::partial_ord::obeys_order::<U>() ==> is_min_max::<T, U>(self@, r.0, r.1),
            crate::partial_ord::obeys_total_order::<U>() && crate::bounded::obeys_bounds::<U>()
                ==> forall|i: int|
                0 <= i < self@.len() ==> {
                    &&& crate::partial_ord::less_eq(
                        r.0.numeric_proportional_spec(),
                        (#[trigger] self@[i]).numeric_proportional_spec(),
                    )
                    &&& crate::partial_ord::less_eq(
                        self@[i].numeric_proportional_spec(),
                        r.1.numeric_proportional_spec(),
                    )
                },
    {
        let (min_index, max_index) = self.min_max_indices::<U>();
        if self.len() == 0 {
            (T::default(), T::default())
        } else {
            let r = (self.get(min_index), self.get(max_index));
            proof {
                if crate::partial_ord::obeys_total_order::<U>()
                    && crate::bounded::obeys_bounds::<U>() {
                    lemma_min_max_are_extremes::<T, U>(self@, r.0, r.1);
                }
            }
            r
        }
    }

    /// The indices of the elements with the least and the greatest key, found in one scan
    /// that starts from the sentinels of the key type and compares strictly: of elements with
    /// equal keys the first is found. Index 0 stands in where no key took a sentinel's place.
    pub fn min_max_indices<U>(&self) -> (r: (usize, usize)) where
        T: ToNumeric<U>,
        U: Copy + PartialOrd + Bounded,

        ensures
            r.0 < self@.len() || r.0 == 0,
            r.1 < self@.len() || r.1 == 0,
            crate::partial_ord::obeys_order::<U>() ==> {
                &&& r.0 == index_found(
                    running_min(keys_of::<T, U>(self@), U::MAX_BOUND, self@.len() as int),
                )
                &&& r.1 == index_found(
                    running_max(keys_of::<T, U>(self@), U::MIN_BOUND, self@.len() as int),
                )
            },
    {
        let n: usize = self.len();
        let mut min_proportional = U::MAX_BOUND;
        let mut max_proportional = U::MIN_BOUND;
        let mut min_index: usize = 0;
        let mut max_index: usize = 0;
        let ghost keys = keys_of::<T, U>(self@);
        let ghost mut min_at: Option<int> = None;
        let ghost mut max_at: Option<int> = None;
        let mut i: usize = 0;
        while i < n
            invariant
                i <= n,
                n == self@.len(),
                keys == keys_of::<T, U>(self@),
                crate::partial_ord::obeys_order::<U>() ==> {
                    &&& min_at == running_min(keys, U::MAX_BOUND, i as int)
                    &&& max_at == running_max(keys, U::MIN_BOUND, i as int)
                },
                min_at is Some ==> 0 <= min_at->0 < i,
                max_at is Some ==> 0 <= max_at->0 < i,
                min_proportional == (match min_at {
                    Some(j) => keys[j],
                    None => U::MAX_BOUND,
                }),
                max_proportional == (match max_at {
                    Some(j) => keys[j],
                    None => U::MIN_BOUND,
                }),
                min_index == index_found(min_at),
                max_index == index_found(max_at),
            decreases n - i,
        {
            let numeric_proportional = self.get(i).into_numeric_proportional();
            if numeric_proportional < min_proportional {
                min_proportional = numeric_proportional;
                min_index = i;
                proof {
                    min_at = Some(i as int);
                }
            }
            if numeric_proportional > max_proportional {
                max_proportional = numeric_proportional;
                max_index = i;
                proof {
                    max_at = Some(i as int);
                }
            }
            i += 1;
        }
        (min_index, max_index)
    }

    /// Maps the range `[from_lower, from_upper]` to `[to_lower, to_upper]`:
    /// `output[i] = (self[i] - from_lower) * factor + to_lower`, where `factor` is
    /// `(to_upper - to_lower) / (from_upper - from_lower)`.
    pub fn rescale_from_to_range<U>(
        &self,
        from_lower: U,
        from_upper: U,
        to_lower: U,
        to_upper: U,
        output: &mut Self,
    ) where
        T: Sub<U, Output = T> + Mul<U, Output = T> + Add<U, Output = T>,
        U: Copy + Sub<Output = U> + Div<Output = U>,

        requires
            old(output)@.len() >= self@.len(),
            <U as SubSpec<U>>::obeys_sub_spec(),
            <U as DivSpec<U>>::obeys_div_spec(),
            <T as SubSpec<U>>::obeys_sub_spec(),
            <T as MulSpec<U>>::obeys_mul_spec(),
            rescale_factor_req(from_lower, from_upper, to_lower, to_upper),
            forall|i: int|
                #![trigger self@[i]]
                0 <= i < self@.len() ==> rescaled_req(
                    self@[i],
                    from_lower,
                    rescale_factor(from_lower, from_upper, to_lower, to_upper),
                    to_lower,
                ),
        ensures
            super::kept_from(old(output)@, final(output)@, self@.len()),
            forall|i: int|
                0 <= i < self@.len() ==> rescaled_returns(
                    self@[i],
                    from_lower,
                    rescale_factor(from_lower, from_upper, to_lower, to_upper),
                    to_lower,
                    #[trigger] final(output)@[i],
                ),
            <T as AddSpec<U>>::obeys_add_spec() ==> forall|i: int|
                0 <= i < self@.len() ==> #[trigger] final(output)@[i] == rescaled(
                    self@[i],
                    from_lower,
                    rescale_factor(from_lower, from_upper, to_lower, to_upper),
                    to_lower,
                ),
    {
        let scaling_factor = (to_upper - to_lower) / (from_upper - from_lower);
        self.map1(
            output,
            |s_i: T| -> (r: T)
                requires
                    <T as SubSpec<U>>::obeys_sub_spec(),
                    <T as MulSpec<U>>::obeys_mul_spec(),
                    rescaled_req(s_i, from_lower, scaling_factor, to_lower),
                ensures
                    rescaled_returns(s_i, from_lower, scaling_factor, to_lower, r),
                    <T as AddSpec<U>>::obeys_add_spec() ==> r == rescaled(
                        s_i,
                        from_lower,
                        scaling_factor,
                        to_lower,
                    ),
                { (s_i - from_lower) * scaling_factor + to_lower }
        );
    }

    /// Maps the range between the minimum and the maximum of the layer, as `min_max` finds
    /// them, to `[to_lower, to_upper]`.
    pub fn rescale_to_range<U>(&self, to_lower: U, to_upper: U, output: &mut Self) where
        T: Sub<U, Output = T> + Mul<U, Output = T> + Add<U, Output = T> + ToNumeric<U>,
        U: Copy + Sub<Output = U> + Div<Output = U> + PartialOrd + Bounded,

        requires
            old(output)@.len() >= self@.len(),
            crate::partial_ord::obeys_order::<U>(),
            <U as SubSpec<U>>::obeys_sub_spec(),
            <U as DivSpec<U>>::obeys_div_spec(),
            <T as SubSpec<U>>::obeys_sub_spec(),
            <T as MulSpec<U>>::obeys_mul_spec(),
            forall|lo: T, hi: T| #[trigger]
                is_min_max::<T, U>(self@, lo, hi) ==> {
                    &&& rescale_factor_req(lo.numeric_spec(), hi.numeric_spec(), to_lower, to_upper)
                    &&& forall|i: int|
                        #![trigger self@[i]]
                        0 <= i < self@.len() ==> rescaled_req(
                            self@[i],
                            lo.numeric_spec(),
                            rescale_factor(
                                lo.numeric_spec(),
                                hi.numeric_spec(),
                                to_lower,
                                to_upper,
                            ),
                            to_lower,
                        )
                },
        ensures
            super::kept_from(old(output)@, final(output)@, self@.len()),
            exists|lo: T, hi: T| #[trigger]
                is_min_max::<T, U>(self@, lo, hi) && forall|i: int|
                    0 <= i < self@.len() ==> rescaled_returns(
                        self@[i],
                        lo.numeric_spec(),
                        rescale_factor(lo.numeric_spec(), hi.numeric_spec(), to_lower, to_upper),
                        to_lower,
                        #[trigger] final(output)@[i],
                    ),
            <T as AddSpec<U>>::obeys_add_spec() ==> exists|lo: T, hi: T| #[trigger]
                is_min_max::<T, U>(self@, lo, hi) && forall|i: int|
                    0 <= i < self@.len() ==> #[trigger] final(output)@[i] == rescaled(
                        self@[i],
                        lo.numeric_spec(),
                        rescale_factor(lo.numeric_spec(), hi.numeric_spec(), to_lower, to_upper),
                        to_lower,
                    ),
    {
        let (from_lower, from_upper) = self.min_max();
        let from_lower = from_lower.into_numeric();
        let from_upper = from_upper.into_numeric();
        self.rescale_from_to_range(from_lower, from_upper, to_lower, to_upper, output);
    }

    /// Maps the range between the minimum and the maximum of the layer, as `min_max` finds
    /// them, to a range of length one that starts at zero:
    /// `output[i] = (self[i] - min) * inv(max - min)`.
    pub fn normalize<U>(&self, output: &mut Self) where
        T: Sub<U, Output = T> + Mul<U, Output = T> + ToNumeric<U>,
        U: Copy + Sub<Output = U> + PartialOrd + Bounded + Inv,

        requires
            old(output)@.len() >= self@.len(),
            crate::partial_ord::obeys_order::<U>(),
            <U as SubSpec<U>>::obeys_sub_spec(),
            <T as SubSpec<U>>::obeys_sub_spec(),
            forall|lo: T, hi: T| #[trigger]
                is_min_max::<T, U>(self@, lo, hi) ==> {
                    &&& normalize_factor_req(lo.numeric_spec(), hi.numeric_spec())
                    &&& forall|i: int|
                        #![trigger self@[i]]
                        0 <= i < self@.len() ==> normalized_req(
                            self@[i],
                            lo.numeric_spec(),
                            normalize_factor(lo.numeric_spec(), hi.numeric_spec()),
                        )
                },
        ensures
            super::kept_from(old(output)@, final(output)@, self@.len()),
            exists|lo: T, hi: T| #[trigger]
                is_min_max::<T, U>(self@, lo, hi) && forall|i: int|
                    0 <= i < self@.len() ==> normalized_returns(
                        self@[i],
                        lo.numeric_spec(),
                        normalize_factor(lo.numeric_spec(), hi.numeric_spec()),
                        #[trigger] final(output)@[i],
                    ),
            <T as MulSpec<U>>::obeys_mul_spec() ==> exists|lo: T, hi: T| #[trigger]
                is_min_max::<T, U>(self@, lo, hi) && forall|i: int|
                    0 <= i < self@.len() ==> #[trigger] final(output)@[i] == normalized(
                        self@[i],
                        lo.numeric_spec(),
                        normalize_factor(lo.numeric_spec(), hi.numeric_spec()),
                    ),
    {
        let (from_lower, from_upper) = self.min_max();
        let from_lower = from_lower.into_numeric();
        let from_upper = from_upper.into_numeric();
        let scaling_factor = (from_upper - from_lower).inv();
        self.map1(
            output,
            |s_i: T| -> (r: T)
                requires
                    <T as SubSpec<U>>::obeys_sub_spec(),
                    normalized_req(s_i, from_lower, scaling_factor),
                ensures
                    normalized_returns(s_i, from_lower, scaling_factor, r),
                    <T as MulSpec<U>>::obeys_mul_spec() ==> r == normalized(
                        s_i,
                        from_lower,
                        scaling_factor,
                    ),
                { (s_i - from_lower) * scaling_factor }
        );
    }

    /// Maps the range `[0, from_upper]` to `[0, to_upper]`:
    /// `output[i] = self[i] * (to_upper / from_upper)`.
    pub fn rescale_from_to<U>(&self, from_upper: U, to_upper: U, output: &mut Self) where
        T: Mul<U, Output = T>,
        U: Copy + Div<Output = U>,

        requires
            old(output)@.len() >= self@.len(),
            <U as DivSpec<U>>::obeys_div_spec(),
            to_upper.div_req(from_upper),
            forall|i: int|
                #![trigger self@[i]]
                0 <= i < self@.len() ==> self@[i].mul_req(to_upper.div_spec(from_upper)),
        ensures
            super::kept_from(old(output)@, final(output)@, self@.len()),
            forall|i: int|
                0 <= i < self@.len() ==> crate::operators::mul_returns(
                    self@[i],
                    to_upper.div_spec(from_upper),
                    #[trigger] final(output)@[i],
                ),
            <T as MulSpec<U>>::obeys_mul_spec() ==> forall|i: int|
                0 <= i < self@.len() ==> #[trigger] final(output)@[i] == self@[i].mul_spec(
                    to_upper.div_spec(from_upper),
                ),
    {
        let scaling_factor = to_upper / from_upper;
        self.map1(
            output,
            |s_i: T| -> (r: T)
                requires
                    s_i.mul_req(scaling_factor),
                ensures
                    crate::operators::mul_returns(s_i, scaling_factor, r),
                    <T as MulSpec<U>>::obeys_mul_spec() ==> r == s_i.mul_spec(scaling_factor),
                { s_i * scaling_factor }
        );
    }

    /// Maps the range between zero and the maximum of the layer, as `min_max` finds it, to
    /// `[0, to_upper]`.
    pub fn rescale_to<U>(&self, to_upper: U, output: &mut Self) where
        T: Mul<U, Output = T> + ToNumeric<U>,
        U: Copy + Div<Output = U> + PartialOrd + Bounded,

        requires
            old(output)@.len() >= self@.len(),
            crate::partial_ord::obeys_order::<U>(),
            <U as DivSpec<U>>::obeys_div_spec(),
            forall|lo: T, hi: T| #[trigger]
                is_min_max::<T, U>(self@, lo, hi) ==> {
                    &&& to_upper.div_req(hi.numeric_spec())
                    &&& forall|i: int|
                        #![trigger self@[i]]
                        0 <= i < self@.len() ==> self@[i].mul_req(
                            to_upper.div_spec(hi.numeric_spec()),
                        )
                },
        ensures
            super::kept_from(old(output)@, final(output)@, self@.len()),
            exists|lo: T, hi: T| #[trigger]
                is_min_max::<T, U>(self@, lo, hi) && forall|i: int|
                    0 <= i < self@.len() ==> crate::operators::mul_returns(
                        self@[i],
                        to_upper.div_spec(hi.numeric_spec()),
                        #[trigger] final(output)@[i],
                    ),
            <T as MulSpec<U>>::obeys_mul_spec() ==> exists|lo: T, hi: T| #[trigger]
                is_min_max::<T, U>(self@, lo, hi) && forall|i: int|
                    0 <= i < self@.len() ==> #[trigger] final(output)@[i] == self@[i].mul_spec(
                        to_upper.div_spec(hi.numeric_spec()),
                    ),
    {
        let (_, from_upper) = self.min_max();
        let from_upper = from_upper.into_numeric();
        self.rescale_from_to(from_upper, to_upper, output);
    }

    /// `output[i]` is `self[i]`, normalized as its type defines it.
    pub fn normalize_each(&self, output: &mut Self) where T: Normalize
        requires
            old(output)@.len() >= self@.len(),
            forall|i: int| #![trigger self@[i]] 0 <= i < self@.len() ==> self@[i].normalize_req(),
        ensures
            super::kept_from(old(output)@, final(output)@, self@.len()),
            forall|i: int|
                0 <= i < self@.len() ==> #[trigger] final(output)@[i] == self@[i].normalize_spec(),
    {
        self.map1(
            output,
            |s_i: T| -> (r: T)
                requires
                    s_i.normalize_req(),
                ensures
                    r == s_i.normalize_spec(),
                { s_i.normalize() }
        );
    }
}

} // verus!
