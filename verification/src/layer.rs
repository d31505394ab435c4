//! The field container and the operations that every other operation is built from.
//!
//! Length policy. An operation visits the indices below the length of its shortest
//! input layer. The output layer must be at least that long; its elements from that
//! index on are left as they were, and its length never changes.

use vstd::prelude::*;
use vstd::std_specs::convert::IntoSpec;
use vstd::std_specs::ops::AddSpec;

pub mod arithmetic;
pub mod interpolation;
pub mod layer_bounded;
pub mod statistics;

verus! {

/// An owned array of fixed length that holds one value per index of a domain.
#[derive(Debug)]
pub struct Layer<T> {
    data: Vec<T>,
}

impl<T> View for Layer<T> {
    type V = Seq<T>;

    closed spec fn view(&self) -> Seq<T> {
        self.data@
    }
}

/// Whether `value` is a value that `T::default()` may return.
pub open spec fn is_default<T: Default>(value: T) -> bool {
    call_ensures(T::default, (), value)
}

/// The smaller of two lengths.
pub open spec fn shortest2(a: nat, b: nat) -> nat {
    if a <= b {
        a
    } else {
        b
    }
}

/// The smallest of three lengths.
pub open spec fn shortest3(a: nat, b: nat, c: nat) -> nat {
    shortest2(shortest2(a, b), c)
}

/// Whether one of the first `n` entries of `mapping` names the index `j`.
pub open spec fn is_named(mapping: Seq<usize>, n: nat, j: int) -> bool {
    exists|i: int| 0 <= i < n && #[trigger] mapping[i] == j
}

/// Whether entry `i` is the last of the first `n` entries of `mapping` that names its index.
pub open spec fn is_last_write(mapping: Seq<usize>, n: nat, i: int) -> bool {
    &&& 0 <= i < n
    &&& forall|k: int| i < k < n ==> #[trigger] mapping[k] != mapping[i]
}

/// Whether `after` is as long as `before` and holds the same elements from index `n` on.
pub open spec fn kept_from<T>(before: Seq<T>, after: Seq<T>, n: nat) -> bool {
    &&& after.len() == before.len()
    &&& forall|i: int| n <= i < before.len() ==> after[i] == before[i]
}

impl<T> Layer<T> {
    /// Takes the elements of `data` as a layer.
    pub fn from_vec(data: Vec<T>) -> (layer: Self)
        ensures
            layer@ == data@,
    {
        Layer { data }
    }

    /// Gives the elements up as a vector.
    pub fn into_vec(self) -> (data: Vec<T>)
        ensures
            data@ == self@,
    {
        self.data
    }

    /// The number of elements.
    pub fn len(&self) -> (n: usize)
        ensures
            n == self@.len(),
    {
        self.data.len()
    }

    /// The elements as a slice.
    pub fn as_slice(&self) -> (slice: &[T])
        ensures
            slice@ == self@,
    {
        self.data.as_slice()
    }

    /// Replaces the element at `index`.
    pub fn set(&mut self, index: usize, value: T)
        requires
            index < old(self)@.len(),
        ensures
            final(self)@ == old(self)@.update(index as int, value),
    {
        self.data.set(index, value);
    }
}

impl<T> core::ops::Deref for Layer<T> {
    type Target = [T];

    fn deref(&self) -> (slice: &[T])
        ensures
            slice@ == self@,
    {
        self.data.as_slice()
    }
}

impl<T> core::ops::DerefMut for Layer<T> {
    fn deref_mut(&mut self) -> (slice: &mut [T])
        ensures
            slice@ == old(self)@,
            final(self)@ == final(slice)@,
    {
        self.data.as_mut_slice()
    }
}

impl<'a, T> IntoIterator for &'a Layer<T> {
    type Item = &'a T;

    type IntoIter = core::slice::Iter<'a, T>;

    /// Walks the elements in ascending order of their indices.
    fn into_iter(self) -> (iter: core::slice::Iter<'a, T>)
        ensures
            vstd::std_specs::slice::into_iter_elts(iter) == self@,
    {
        broadcast use vstd::std_specs::slice::axiom_spec_slice_iter;

        let iter = self.data.as_slice().iter();
        assert(vstd::std_specs::slice::into_iter_elts(iter) =~= self@);
        iter
    }
}

impl<T: Copy + Default> Layer<T> {
    /// Creates a layer of `length` elements, each the default value of `T`.
    pub fn new(length: usize) -> (layer: Self)
        ensures
            layer@.len() == length,
            forall|i: int| 0 <= i < length ==> is_default(#[trigger] layer@[i]),
    {
        let mut data: Vec<T> = Vec::with_capacity(length);
        let mut i: usize = 0;
        while i < length
            invariant
                i <= length,
                data@.len() == i,
                forall|j: int| 0 <= j < i ==> is_default(#[trigger] data@[j]),
            decreases length - i,
        {
            data.push(T::default());
            i += 1;
        }
        Layer { data }
    }

    /// The element at `index`.
    pub fn get(&self, index: usize) -> (value: T)
        requires
            index < self@.len(),
        ensures
            value == self@[index as int],
    {
        self.data[index]
    }

    /// `output[i] = f(self[i])` for every index `i` of `self`.
    pub fn map1<F, U>(&self, output: &mut Layer<U>, f: F) where F: Fn(T) -> U, U: Copy + Default
        requires
            old(output)@.len() >= self@.len(),
            forall|i: int| 0 <= i < self@.len() ==> call_requires(f, (#[trigger] self@[i],)),
        ensures
            kept_from(old(output)@, final(output)@, self@.len()),
            forall|i: int|
                0 <= i < self@.len() ==> call_ensures(f, (self@[i],), #[trigger] final(output)@[i]),
    {
        let n = self.data.len();
        let mut i: usize = 0;
        while i < n
            invariant
                n == self@.len(),
                i <= n,
                n <= output@.len(),
                output@.len() == old(output)@.len(),
                forall|j: int| 0 <= j < n ==> call_requires(f, (#[trigger] self@[j],)),
                forall|j: int| 0 <= j < i ==> call_ensures(f, (self@[j],), #[trigger] output@[j]),
                forall|j: int| i <= j < output@.len() ==> output@[j] == old(output)@[j],
            decreases n - i,
        {
            let value = f(self.data[i]);
            output.data.set(i, value);
            i += 1;
        }
    }

    /// `output[i] = f(self[i], value)` for every index `i` of `self`.
    pub fn map1_with<F, U, W>(&self, value: U, output: &mut Layer<W>, f: F) where
        F: Fn(T, U) -> W,
        U: Copy,
        W: Copy + Default,

        requires
            old(output)@.len() >= self@.len(),
            forall|i: int| 0 <= i < self@.len() ==> call_requires(f, (#[trigger] self@[i], value)),
        ensures
            kept_from(old(output)@, final(output)@, self@.len()),
            forall|i: int|
                0 <= i < self@.len() ==> call_ensures(
                    f,
                    (self@[i], value),
                    #[trigger] final(output)@[i],
                ),
    {
        let n = self.data.len();
        let mut i: usize = 0;
        while i < n
            invariant
                n == self@.len(),
                i <= n,
                n <= output@.len(),
                output@.len() == old(output)@.len(),
                forall|j: int| 0 <= j < n ==> call_requires(f, (#[trigger] self@[j], value)),
                forall|j: int|
                    0 <= j < i ==> call_ensures(f, (self@[j], value), #[trigger] output@[j]),
                forall|j: int| i <= j < output@.len() ==> output@[j] == old(output)@[j],
            decreases n - i,
        {
            let result = f(self.data[i], value);
            output.data.set(i, result);
            i += 1;
        }
    }

    /// `output[i] = f(self[i], layer_b[i])` for every index `i` that both inputs have.
    pub fn map2<F, U, W>(&self, layer_b: &Layer<U>, output: &mut Layer<W>, f: F) where
        F: Fn(T, U) -> W,
        U: Copy + Default,
        W: Copy + Default,

        requires
            old(output)@.len() >= shortest2(self@.len(), layer_b@.len()),
            forall|i: int|
                0 <= i < shortest2(self@.len(), layer_b@.len()) ==> call_requires(
                    f,
                    (#[trigger] self@[i], layer_b@[i]),
                ),
        ensures
            kept_from(old(output)@, final(output)@, shortest2(self@.len(), layer_b@.len())),
            forall|i: int|
                0 <= i < shortest2(self@.len(), layer_b@.len()) ==> call_ensures(
                    f,
                    (self@[i], layer_b@[i]),
                    #[trigger] final(output)@[i],
                ),
    {
        let n = if self.data.len() <= layer_b.data.len() {
            self.data.len()
        } else {
            layer_b.data.len()
        };
        let mut i: usize = 0;
        while i < n
            invariant
                n == shortest2(self@.len(), layer_b@.len()),
                i <= n,
                n <= output@.len(),
                output@.len() == old(output)@.len(),
                forall|j: int|
                    0 <= j < n ==> call_requires(f, (#[trigger] self@[j], layer_b@[j])),
                forall|j: int|
                    0 <= j < i ==> call_ensures(f, (self@[j], layer_b@[j]), #[trigger] output@[j]),
                forall|j: int| i <= j < output@.len() ==> output@[j] == old(output)@[j],
            decreases n - i,
        {
            let result = f(self.data[i], layer_b.data[i]);
            output.data.set(i, result);
            i += 1;
        }
    }

    /// `output[i] = f(self[i], layer_b[i], layer_c[i])` for every index `i` that all three
    /// inputs have.
    pub fn map3<F, U, W, X>(
        &self,
        layer_b: &Layer<U>,
        layer_c: &Layer<W>,
        output: &mut Layer<X>,
        f: F,
    ) where F: Fn(T, U, W) -> X, U: Copy + Default, W: Copy + Default, X: Copy + Default
        requires
            old(output)@.len() >= shortest3(self@.len(), layer_b@.len(), layer_c@.len()),
            forall|i: int|
                0 <= i < shortest3(self@.len(), layer_b@.len(), layer_c@.len()) ==> call_requires(
                    f,
                    (#[trigger] self@[i], layer_b@[i], layer_c@[i]),
                ),
        ensures
            kept_from(
                old(output)@,
                final(output)@,
                shortest3(self@.len(), layer_b@.len(), layer_c@.len()),
            ),
            forall|i: int|
                0 <= i < shortest3(self@.len(), layer_b@.len(), layer_c@.len()) ==> call_ensures(
                    f,
                    (self@[i], layer_b@[i], layer_c@[i]),
                    #[trigger] final(output)@[i],
                ),
    {
        let ab = if self.data.len() <= layer_b.data.len() {
            self.data.len()
        } else {
            layer_b.data.len()
        };
        let n = if ab <= layer_c.data.len() {
            ab
        } else {
            layer_c.data.len()
        };
        let mut i: usize = 0;
        while i < n
            invariant
                n == shortest3(self@.len(), layer_b@.len(), layer_c@.len()),
                i <= n,
                n <= output@.len(),
                output@.len() == old(output)@.len(),
                forall|j: int|
                    0 <= j < n ==> call_requires(
                        f,
                        (#[trigger] self@[j], layer_b@[j], layer_c@[j]),
                    ),
                forall|j: int|
                    0 <= j < i ==> call_ensures(
                        f,
                        (self@[j], layer_b@[j], layer_c@[j]),
                        #[trigger] output@[j],
                    ),
                forall|j: int| i <= j < output@.len() ==> output@[j] == old(output)@[j],
            decreases n - i,
        {
            let result = f(self.data[i], layer_b.data[i], layer_c.data[i]);
            output.data.set(i, result);
            i += 1;
        }
    }

    /// A new layer of the same length whose elements are those of `self`, converted.
    pub fn convert<U>(&self) -> (layer: Layer<U>) where T: Into<U>, U: Copy + Default
        ensures
            layer@.len() == self@.len(),
            forall|i: int|
                0 <= i < self@.len() ==> crate::operators::into_returns(
                    self@[i],
                    #[trigger] layer@[i],
                ),
            <T as IntoSpec<U>>::obeys_into_spec() ==> forall|i: int|
                0 <= i < self@.len() ==> #[trigger] layer@[i] == self@[i].into_spec(),
    {
        let mut layer: Layer<U> = Layer::new(self.len());
        self.map1(
            &mut layer,
            |s_i: T| -> (r: U)
                ensures
                    crate::operators::into_returns(s_i, r),
                    <T as IntoSpec<U>>::obeys_into_spec() ==> r == s_i.into_spec(),
                { s_i.into() }
        );
        layer
    }

    /// Gather: `output[i] = self[mapping[i]]` for every index `i` of `mapping`.
    pub fn swizzle(&self, mapping: &Layer<usize>, output: &mut Self)
        requires
            old(output)@.len() >= mapping@.len(),
            forall|i: int| 0 <= i < mapping@.len() ==> #[trigger] mapping@[i] < self@.len(),
        ensures
            kept_from(old(output)@, final(output)@, mapping@.len()),
            forall|i: int|
                0 <= i < mapping@.len() ==>
                    #[trigger] final(output)@[i] == self@[mapping@[i] as int],
    {
        mapping.map1(
            output,
            |m_i: usize| -> (r: T)
                requires
                    m_i < self@.len(),
                ensures
                    r == self@[m_i as int],
                { self.get(m_i) }
        );
    }

    /// Scatter: `output[mapping[i]] = self[mapping[i]] + add[i]` for every index `i` that
    /// `mapping` and `add` both have, in ascending order of `i`.
    ///
    /// An index that `mapping` does not name keeps its element. Where `mapping` names an
    /// index more than once, the last write stands: nothing is accumulated.
    pub fn inverse_swizzle_add(&self, mapping: &Layer<usize>, add: &Self, output: &mut Self) where
        T: core::ops::Add<Output = T>,

        requires
            forall|i: int|
                0 <= i < shortest2(mapping@.len(), add@.len()) ==> {
                    &&& (#[trigger] mapping@[i]) < self@.len()
                    &&& mapping@[i] < old(output)@.len()
                    &&& self@[mapping@[i] as int].add_req(add@[i])
                },
        ensures
            final(output)@.len() == old(output)@.len(),
            forall|j: int|
                0 <= j < old(output)@.len() && !is_named(
                    mapping@,
                    shortest2(mapping@.len(), add@.len()),
                    j,
                ) ==> #[trigger] final(output)@[j] == old(output)@[j],
            forall|i: int| #[trigger]
                is_last_write(mapping@, shortest2(mapping@.len(), add@.len()), i)
                    ==> crate::operators::add_returns(
                    self@[mapping@[i] as int],
                    add@[i],
                    final(output)@[mapping@[i] as int],
                ),
            T::obeys_add_spec() ==> forall|i: int| #[trigger]
                is_last_write(mapping@, shortest2(mapping@.len(), add@.len()), i)
                    ==> final(output)@[mapping@[i] as int]
                    == self@[mapping@[i] as int].add_spec(add@[i]),
    {
        let n: usize = if mapping.data.len() <= add.data.len() {
            mapping.data.len()
        } else {
            add.data.len()
        };
        let mut i: usize = 0;
        while i < n
            invariant
                n == shortest2(mapping@.len(), add@.len()),
                i <= n,
                output@.len() == old(output)@.len(),
                forall|k: int|
                    0 <= k < n ==> {
                        &&& (#[trigger] mapping@[k]) < self@.len()
                        &&& mapping@[k] < output@.len()
                        &&& self@[mapping@[k] as int].add_req(add@[k])
                    },
                forall|j: int|
                    0 <= j < output@.len() && !is_named(mapping@, i as nat, j) ==>
                        #[trigger] output@[j]
                        == old(output)@[j],
                forall|k: int| #[trigger]
                    is_last_write(mapping@, i as nat, k) ==> crate::operators::add_returns(
                        self@[mapping@[k] as int],
                        add@[k],
                        output@[mapping@[k] as int],
                    ),
            decreases n - i,
        {
            let m_i = mapping.data[i];
            let sum = self.data[m_i] + add.data[i];
            output.data.set(m_i, sum);
            proof {
                assert forall|j: int|
                    0 <= j < output@.len()
                    && !is_named(mapping@, (i + 1) as nat, j) implies #[trigger] output@[j]
                    == old(output)@[j] by {
                    assert(mapping@[i as int] != j);
                    assert(!is_named(mapping@, i as nat, j));
                }
                assert forall|k: int| #[trigger]
                    is_last_write(
                        mapping@,
                        (i + 1) as nat,
                        k,
                    ) implies crate::operators::add_returns(
                    self@[mapping@[k] as int],
                    add@[k],
                    output@[mapping@[k] as int],
                ) by {
                    if k < i {
                        assert(is_last_write(mapping@, i as nat, k));
                        assert(mapping@[i as int] != mapping@[k]);
                    }
                }
            }
            i += 1;
        }
    }

    /// Sets every element to `value`.
    pub fn fill(&mut self, value: T)
        ensures
            final(self)@.len() == old(self)@.len(),
            forall|i: int| 0 <= i < old(self)@.len() ==> #[trigger] final(self)@[i] == value,
    {
        let n = self.data.len();
        let mut i: usize = 0;
        while i < n
            invariant
                i <= n,
                n == self@.len(),
                self@.len() == old(self)@.len(),
                forall|j: int| 0 <= j < i ==> #[trigger] self@[j] == value,
            decreases n - i,
        {
            self.data.set(i, value);
            i += 1;
        }
    }

    /// Copies every element into `output`, which must be as long as `self`.
    pub fn copy_into(&self, output: &mut Self)
        requires
            old(output)@.len() == self@.len(),
        ensures
            final(output)@ == self@,
    {
        let n = self.data.len();
        let mut i: usize = 0;
        while i < n
            invariant
                i <= n,
                n == self@.len(),
                output@.len() == n,
                forall|j: int| 0 <= j < i ==> #[trigger] output@[j] == self@[j],
            decreases n - i,
        {
            output.data.set(i, self.data[i]);
            i += 1;
        }
    }
}

} // verus!
