//! Operations on layers of vectors, as free functions.

use crate::layer::Layer;
use crate::normalize::Normalize;
use vstd::prelude::*;

verus! {

/// `output[i]` is `source[i]`, normalized as its type defines it, for every index `i` of
/// `source`.
pub fn normalize_each<T>(source: &Layer<T>, output: &mut Layer<T>) where T: Copy + Normalize
    requires
        old(output)@.len() >= source@.len(),
        forall|i: int| #![trigger source@[i]] 0 <= i < source@.len() ==> source@[i].normalize_req(),
    ensures
        crate::layer::kept_from(old(output)@, final(output)@, source@.len()),
        forall|i: int|
            0 <= i < source@.len() ==> #[trigger] final(output)@[i] == source@[i].normalize_spec(),
{
    let elements = source.as_slice();
    let n: usize = elements.len();
    let mut i: usize = 0;
    while i < n
        invariant
            i <= n,
            n == source@.len(),
            elements@ == source@,
            output@.len() == old(output)@.len(),
            n <= output@.len(),
            forall|j: int| #![trigger source@[j]] 0 <= j < n ==> source@[j].normalize_req(),
            forall|j: int| 0 <= j < i ==> #[trigger] output@[j] == source@[j].normalize_spec(),
            forall|j: int| i <= j < output@.len() ==> output@[j] == old(output)@[j],
        decreases n - i,
    {
        output.set(i, elements[i].normalize());
        i += 1;
    }
}

} // verus!
