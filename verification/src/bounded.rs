use vstd::prelude::*;

verus! {

/// A type with a least and a greatest value, used as the sentinels that seed a scan for
/// a minimum or a maximum.
///
/// The value of a sentinel, and that it is an end of the order, is known to a proof in
/// another module through the lemma of its type.
pub trait Bounded: Sized {
    const MIN_BOUND: Self;

    const MAX_BOUND: Self;
}

/// Whether the sentinels of `T` are the ends of its order: no value is less than
/// `MIN_BOUND`, and none is greater than `MAX_BOUND`.
pub open spec fn obeys_bounds<T: PartialOrd + Bounded>() -> bool {
    &&& forall|x: T| !#[trigger] crate::partial_ord::less(x, T::MIN_BOUND)
    &&& forall|x: T| !#[trigger] crate::partial_ord::less(T::MAX_BOUND, x)
}

impl Bounded for u8 {
    const MIN_BOUND: u8 = 0;

    const MAX_BOUND: u8 = 255;
}

/// The sentinels of `u8` are the ends of its range, below and above which there is
/// no value.
pub proof fn lemma_bounds_u8()
    ensures
        <u8 as Bounded>::MIN_BOUND == 0,
        <u8 as Bounded>::MAX_BOUND == 255,
        obeys_bounds::<u8>(),
{
}

impl Bounded for u16 {
    const MIN_BOUND: u16 = 0;

    const MAX_BOUND: u16 = 65535;
}

/// The sentinels of `u16` are the ends of its range, below and above which there is
/// no value.
pub proof fn lemma_bounds_u16()
    ensures
        <u16 as Bounded>::MIN_BOUND == 0,
        <u16 as Bounded>::MAX_BOUND == 65535,
        obeys_bounds::<u16>(),
{
}

impl Bounded for u32 {
    const MIN_BOUND: u32 = 0;

    const MAX_BOUND: u32 = 4294967295;
}

/// The sentinels of `u32` are the ends of its range, below and above which there is
/// no value.
pub proof fn lemma_bounds_u32()
    ensures
        <u32 as Bounded>::MIN_BOUND == 0,
        <u32 as Bounded>::MAX_BOUND == 4294967295,
        obeys_bounds::<u32>(),
{
}

impl Bounded for u64 {
    const MIN_BOUND: u64 = 0;

    const MAX_BOUND: u64 = 18446744073709551615;
}

/// The sentinels of `u64` are the ends of its range, below and above which there is
/// no value.
pub proof fn lemma_bounds_u64()
    ensures
        <u64 as Bounded>::MIN_BOUND == 0,
        <u64 as Bounded>::MAX_BOUND == 18446744073709551615,
        obeys_bounds::<u64>(),
{
}

impl Bounded for i8 {
    const MIN_BOUND: i8 = -128;

    const MAX_BOUND: i8 = 127;
}

/// The sentinels of `i8` are the ends of its range, below and above which there is
/// no value.
pub proof fn lemma_bounds_i8()
    ensures
        <i8 as Bounded>::MIN_BOUND == -128,
        <i8 as Bounded>::MAX_BOUND == 127,
        obeys_bounds::<i8>(),
{
}

impl Bounded for i16 {
    const MIN_BOUND: i16 = -32768;

    const MAX_BOUND: i16 = 32767;
}

/// The sentinels of `i16` are the ends of its range, below and above which there is
/// no value.
pub proof fn lemma_bounds_i16()
    ensures
        <i16 as Bounded>::MIN_BOUND == -32768,
        <i16 as Bounded>::MAX_BOUND == 32767,
        obeys_bounds::<i16>(),
{
}

impl Bounded for i32 {
    const MIN_BOUND: i32 = -2147483648;

    const MAX_BOUND: i32 = 2147483647;
}

/// The sentinels of `i32` are the ends of its range, below and above which there is
/// no value.
pub proof fn lemma_bounds_i32()
    ensures
        <i32 as Bounded>::MIN_BOUND == -2147483648,
        <i32 as Bounded>::MAX_BOUND == 2147483647,
        obeys_bounds::<i32>(),
{
}

impl Bounded for i64 {
    const MIN_BOUND: i64 = -9223372036854775808;

    const MAX_BOUND: i64 = 9223372036854775807;
}

/// The sentinels of `i64` are the ends of its range, below and above which there is
/// no value.
pub proof fn lemma_bounds_i64()
    ensures
        <i64 as Bounded>::MIN_BOUND == -9223372036854775808,
        <i64 as Bounded>::MAX_BOUND == 9223372036854775807,
        obeys_bounds::<i64>(),
{
}

} // verus!
