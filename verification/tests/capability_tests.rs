use field_layers::bounded::Bounded;
use field_layers::magnitude::Magnitude;
use field_layers::one::One;
use field_layers::partial_eq::{eq, ne};
use field_layers::partial_ord::{ge, gt, le, lt, partial_max, partial_min};
use field_layers::to_numeric::ToNumeric;
use field_layers::zero::Zero;

#[test]
fn one_is_the_multiplicative_identity_of_the_integers() {
    assert_eq!(<u8 as One>::one(), 1);
    assert_eq!(<u16 as One>::one(), 1);
    assert_eq!(<u32 as One>::one(), 1);
    assert_eq!(<u64 as One>::one(), 1);
    assert_eq!(<i8 as One>::one(), 1);
    assert_eq!(<i16 as One>::one(), 1);
    assert_eq!(<i32 as One>::one(), 1);
    assert_eq!(<i64 as One>::one(), 1);
}

#[test]
fn zero_is_the_additive_identity() {
    assert_eq!(<u8 as Zero<u8>>::zero(), 0);
    assert_eq!(<i16 as Zero<i16>>::zero(), 0);
    assert_eq!(<u32 as Zero<u32>>::zero(), 0);
    assert_eq!(<i64 as Zero<i64>>::zero(), 0);
    assert_eq!(<usize as Zero<usize>>::zero(), 0);
    assert_eq!(<isize as Zero<isize>>::zero(), 0);
    assert!(!<bool as Zero<bool>>::zero());
}

#[test]
fn bounds_of_the_integers_are_the_ends_of_their_ranges() {
    assert_eq!(<u8 as Bounded>::MIN_BOUND, u8::MIN);
    assert_eq!(<u8 as Bounded>::MAX_BOUND, u8::MAX);
    assert_eq!(<u16 as Bounded>::MAX_BOUND, u16::MAX);
    assert_eq!(<u32 as Bounded>::MAX_BOUND, u32::MAX);
    assert_eq!(<u64 as Bounded>::MAX_BOUND, u64::MAX);
    assert_eq!(<i8 as Bounded>::MIN_BOUND, i8::MIN);
    assert_eq!(<i8 as Bounded>::MAX_BOUND, i8::MAX);
    assert_eq!(<i16 as Bounded>::MIN_BOUND, i16::MIN);
    assert_eq!(<i32 as Bounded>::MIN_BOUND, i32::MIN);
    assert_eq!(<i32 as Bounded>::MAX_BOUND, i32::MAX);
    assert_eq!(<i64 as Bounded>::MIN_BOUND, i64::MIN);
    assert_eq!(<i64 as Bounded>::MAX_BOUND, i64::MAX);
}

#[test]
fn integers_read_as_themselves() {
    assert_eq!(7u8.into_numeric(), 7);
    assert_eq!(7u8.into_numeric_proportional(), 7);
    assert_eq!((-7i32).into_numeric(), -7);
    assert_eq!((-7i64).into_numeric_proportional(), -7);
    assert_eq!(200u8.magnitude(), 200);
    assert_eq!(200u8.magnitude_proportional(), 200);
    assert_eq!(70000u32.magnitude(), 70000);
}

#[test]
fn comparisons_as_functions() {
    assert!(lt(1, 2) && !lt(2, 2) && !lt(3, 2));
    assert!(le(1, 2) && le(2, 2) && !le(3, 2));
    assert!(!gt(1, 2) && !gt(2, 2) && gt(3, 2));
    assert!(!ge(1, 2) && ge(2, 2) && ge(3, 2));
    assert!(eq(2, 2) && !eq(1, 2));
    assert!(ne(1, 2) && !ne(2, 2));
}

#[test]
fn comparisons_with_a_value_that_is_not_a_number() {
    let nan = f64::NAN;
    assert!(!lt(nan, 1.0) && !gt(nan, 1.0) && !le(nan, 1.0) && !ge(nan, 1.0));
    assert!(!eq(nan, nan) && ne(nan, nan));
}

#[test]
fn partial_min_and_max_pick_one_of_the_two() {
    assert_eq!(partial_min(1, 2), 1);
    assert_eq!(partial_min(2, 1), 1);
    assert_eq!(partial_max(1, 2), 2);
    assert_eq!(partial_max(2, 1), 2);
    assert_eq!(partial_min(-0.5, 0.25), -0.5);
    assert_eq!(partial_max(-0.5, 0.25), 0.25);
}

#[test]
fn partial_min_and_max_return_the_second_value_where_the_first_does_not_compare() {
    assert_eq!(partial_min(f64::NAN, 1.0), 1.0);
    assert_eq!(partial_max(f64::NAN, 1.0), 1.0);
    assert!(partial_min(1.0, f64::NAN).is_nan());
    assert!(partial_max(1.0, f64::NAN).is_nan());
}
