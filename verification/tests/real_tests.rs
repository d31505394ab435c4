use field_layers::bounded::Bounded;
use field_layers::div_usize::DivUsize;
use field_layers::e_x::EX;
use field_layers::interpolations::{
    clamp, lerp, linearstep, linearstep_inv, mix, smoothstep, smoothstep2, smoothstep2_neg,
    smoothstep_inv, step,
};
use field_layers::inv::Inv;
use field_layers::layer::Layer;
use field_layers::one::One;
use field_layers::power::Power;
use field_layers::scalar_layer;
use field_layers::square_root::SquareRoot;
use field_layers::to_numeric::ToNumeric;
use std::ops::{Add, Div, Mul, Neg, Sub};

/// A real number, as the element type of the layers under test.
#[derive(Clone, Copy, Debug, Default, PartialEq, PartialOrd)]
struct Real(f64);

impl Add for Real {
    type Output = Real;

    fn add(self, rhs: Real) -> Real {
        Real(self.0 + rhs.0)
    }
}

impl Sub for Real {
    type Output = Real;

    fn sub(self, rhs: Real) -> Real {
        Real(self.0 - rhs.0)
    }
}

impl Mul for Real {
    type Output = Real;

    fn mul(self, rhs: Real) -> Real {
        Real(self.0 * rhs.0)
    }
}

impl Div for Real {
    type Output = Real;

    fn div(self, rhs: Real) -> Real {
        Real(self.0 / rhs.0)
    }
}

impl Neg for Real {
    type Output = Real;

    fn neg(self) -> Real {
        Real(-self.0)
    }
}

impl One for Real {
    fn one_spec() -> Real {
        Real(1.0)
    }

    fn one() -> Real {
        Real(1.0)
    }
}

impl Inv for Real {
    fn inv_req(self) -> bool {
        true
    }

    fn inv_spec(self) -> Real {
        Real(self.0.recip())
    }

    fn inv(self) -> Real {
        Real(self.0.recip())
    }
}

impl EX for Real {
    type Output = Real;

    fn e_x_req(self) -> bool {
        true
    }

    fn e_x_spec(self) -> Real {
        Real(self.0.exp())
    }

    fn e_x(self) -> Real {
        Real(self.0.exp())
    }
}

impl SquareRoot for Real {
    fn square_root_req(self) -> bool {
        true
    }

    fn square_root_spec(self) -> Real {
        Real(self.0.sqrt())
    }

    fn square_root(self) -> Real {
        Real(self.0.sqrt())
    }
}

impl DivUsize for Real {
    fn div_usize_req(self, _rhs: usize) -> bool {
        true
    }

    fn div_usize_spec(self, rhs: usize) -> Real {
        Real(self.0 / rhs as f64)
    }

    fn div_usize(self, rhs: usize) -> Real {
        Real(self.0 / rhs as f64)
    }
}

impl Power for Real {
    type Output = Real;

    fn power_req(self, _rhs: Real) -> bool {
        true
    }

    fn power_spec(self, rhs: Real) -> Real {
        Real(self.0.powf(rhs.0))
    }

    fn power(self, rhs: Real) -> Real {
        Real(self.0.powf(rhs.0))
    }
}

impl Power<i32> for Real {
    type Output = Real;

    fn power_req(self, _rhs: i32) -> bool {
        true
    }

    fn power_spec(self, rhs: i32) -> Real {
        Real(self.0.powi(rhs))
    }

    fn power(self, rhs: i32) -> Real {
        Real(self.0.powi(rhs))
    }
}

impl ToNumeric<Real> for Real {
    fn numeric_proportional_spec(self) -> Real {
        self
    }

    fn numeric_spec(self) -> Real {
        self
    }

    fn into_numeric_proportional(self) -> Real {
        self
    }

    fn into_numeric(self) -> Real {
        self
    }
}

impl Bounded for Real {
    const MIN_BOUND: Real = Real(f64::NEG_INFINITY);
    const MAX_BOUND: Real = Real(f64::INFINITY);
}

fn reals(values: &[f64]) -> Layer<Real> {
    Layer::from_vec(values.iter().map(|&v| Real(v)).collect())
}

fn values(layer: &Layer<Real>) -> Vec<f64> {
    layer.iter().map(|r| r.0).collect()
}

fn close(a: f64, b: f64) -> bool {
    (a - b).abs() <= 1e-12 * (1.0 + a.abs().max(b.abs()))
}

#[test]
fn mix_blends_linearly() {
    assert_eq!(mix(Real(0.25), Real(10.0), Real(20.0)), Real(12.5));
    assert_eq!(mix(Real(0.0), Real(10.0), Real(20.0)), Real(10.0));
    assert_eq!(mix(Real(1.0), Real(10.0), Real(20.0)), Real(20.0));
    assert_eq!(mix(Real(2.0), Real(10.0), Real(20.0)), Real(30.0));
}

#[test]
fn clamp_holds_a_value_between_the_bounds() {
    assert_eq!(clamp(Real(-3.0), Real(0.0), Real(1.0)), Real(0.0));
    assert_eq!(clamp(Real(0.5), Real(0.0), Real(1.0)), Real(0.5));
    assert_eq!(clamp(Real(7.0), Real(0.0), Real(1.0)), Real(1.0));
    assert_eq!(clamp(0, 0, 0), 0);
    assert_eq!(clamp(-9i32, -5, 5), -5);
}

#[test]
fn clamp_stays_within_the_bounds_for_many_values() {
    let mut x = -10.0;
    while x <= 10.0 {
        let r = clamp(Real(x), Real(-2.5), Real(4.0));
        assert!(Real(-2.5) <= r && r <= Real(4.0));
        x += 0.125;
    }
    for x in -50i32..50 {
        let r = clamp(x, -7, 13);
        assert!(-7 <= r && r <= 13);
    }
}

#[test]
fn step_is_one_above_the_edge_and_zero_elsewhere() {
    assert_eq!(step(Real(2.0), Real(1.0)), Real(1.0));
    assert_eq!(step(Real(1.0), Real(1.0)), Real(0.0));
    assert_eq!(step(Real(0.5), Real(1.0)), Real(0.0));
    assert_eq!(step(5u8, 4u8), 1);
    assert_eq!(step(4u8, 4u8), 0);
}

#[test]
fn linearstep_rises_linearly_between_the_bounds() {
    assert_eq!(linearstep(Real(4.0), Real(0.0), Real(8.0)), Real(0.5));
    assert_eq!(linearstep(Real(3.0), Real(2.0), Real(6.0)), Real(0.25));
}

#[test]
fn linearstep_saturates_outside_the_bounds() {
    assert_eq!(linearstep(Real(-1.0), Real(0.0), Real(8.0)), Real(0.0));
    assert_eq!(linearstep(Real(-1e300), Real(0.0), Real(8.0)), Real(0.0));
    assert_eq!(linearstep(Real(9.0), Real(0.0), Real(8.0)), Real(1.0));
    assert_eq!(linearstep(Real(1e300), Real(0.0), Real(8.0)), Real(1.0));
}

#[test]
fn linearstep_is_zero_and_one_at_the_bounds() {
    for (a, b) in [(0.0, 8.0), (-3.0, 5.0), (2.0, 2.5), (1.0, 1025.0)] {
        assert_eq!(linearstep(Real(a), Real(a), Real(b)), Real(0.0));
        assert_eq!(linearstep(Real(b), Real(a), Real(b)), Real(1.0));
    }
}

#[test]
fn linearstep_at_the_upper_bound_is_one_up_to_rounding() {
    for (a, b) in [(1.0, 1e6), (0.0, 3.0), (-7.0, 0.1), (0.3, 49.0)] {
        assert_eq!(linearstep(Real(a), Real(a), Real(b)), Real(0.0));
        let upper = linearstep(Real(b), Real(a), Real(b)).0;
        assert!(close(upper, 1.0) && upper <= 1.0);
    }
}

#[test]
fn linearstep_inv_takes_the_inverse_of_the_length() {
    assert_eq!(linearstep_inv(Real(4.0), Real(0.0), Real(0.125)), Real(0.5));
    assert_eq!(linearstep_inv(Real(-4.0), Real(0.0), Real(0.125)), Real(0.0));
    assert_eq!(linearstep_inv(Real(40.0), Real(0.0), Real(0.125)), Real(1.0));
}

#[test]
fn smoothstep_is_zero_and_one_at_the_bounds() {
    for (a, b) in [(0.0, 8.0), (-3.0, 5.0), (2.0, 2.5), (1.0, 1025.0)] {
        assert_eq!(smoothstep(Real(a), Real(a), Real(b)), Real(0.0));
        assert_eq!(smoothstep(Real(b), Real(a), Real(b)), Real(1.0));
    }
}

#[test]
fn smoothstep_follows_the_cubic() {
    assert_eq!(smoothstep(Real(4.0), Real(0.0), Real(8.0)), Real(0.5));
    assert_eq!(smoothstep(Real(2.0), Real(0.0), Real(8.0)), Real(0.15625));
    assert_eq!(smoothstep(Real(6.0), Real(0.0), Real(8.0)), Real(0.84375));
    assert_eq!(smoothstep(Real(-1.0), Real(0.0), Real(8.0)), Real(0.0));
    assert_eq!(smoothstep(Real(9.0), Real(0.0), Real(8.0)), Real(1.0));
}

#[test]
fn smoothstep_inv_takes_the_inverse_of_the_length() {
    assert_eq!(smoothstep_inv(Real(2.0), Real(0.0), Real(0.125)), Real(0.15625));
    assert_eq!(smoothstep_inv(Real(8.0), Real(0.0), Real(0.125)), Real(1.0));
}

#[test]
fn smoothstep2_follows_the_logistic_curve() {
    assert_eq!(smoothstep2(Real(0.0), Real(3.0)), Real(0.0));
    let high = smoothstep2(Real(50.0), Real(1.0)).0;
    let low = smoothstep2(Real(-50.0), Real(1.0)).0;
    assert!(close(high, 1.0));
    assert!(close(low, -1.0));
    let x = smoothstep2(Real(0.5), Real(2.0)).0;
    assert!(close(x, 2.0 / (1.0 + (-1.0f64).exp()) - 1.0));
    assert!(close(smoothstep2(Real(-0.5), Real(2.0)).0, -x));
}

#[test]
fn smoothstep2_neg_takes_the_negated_slope() {
    assert_eq!(smoothstep2_neg(Real(0.5), Real(-2.0)), smoothstep2(Real(0.5), Real(2.0)));
    assert_eq!(smoothstep2_neg(Real(0.0), Real(1.0)), Real(0.0));
}

#[test]
fn lerp_interpolates_through_the_control_points() {
    let xs = [Real(0.0), Real(8.0), Real(16.0)];
    let ys = [Real(0.0), Real(100.0), Real(50.0)];
    assert_eq!(lerp(Real(-5.0), &xs, &ys), Real(0.0));
    assert_eq!(lerp(Real(0.0), &xs, &ys), Real(0.0));
    assert_eq!(lerp(Real(4.0), &xs, &ys), Real(50.0));
    assert_eq!(lerp(Real(8.0), &xs, &ys), Real(100.0));
    assert_eq!(lerp(Real(12.0), &xs, &ys), Real(75.0));
    assert_eq!(lerp(Real(16.0), &xs, &ys), Real(50.0));
    assert_eq!(lerp(Real(99.0), &xs, &ys), Real(50.0));
}

#[test]
fn lerp_through_one_control_point_is_constant() {
    assert_eq!(lerp(Real(3.0), &[Real(1.0)], &[Real(7.0)]), Real(7.0));
}

#[test]
fn layer_mix_in_all_shapes() {
    let source = reals(&[0.0, 0.5, 1.0]);
    let lower = reals(&[0.0, 10.0, 20.0]);
    let upper = reals(&[8.0, 20.0, 60.0]);
    let mut output = Layer::new(3);
    source.mix_value_value(Real(10.0), Real(20.0), &mut output);
    assert_eq!(values(&output), vec![10.0, 15.0, 20.0]);
    source.mix_value_layer(Real(0.0), &upper, &mut output);
    assert_eq!(values(&output), vec![0.0, 10.0, 60.0]);
    source.mix_layer_value(&lower, Real(100.0), &mut output);
    assert_eq!(values(&output), vec![0.0, 55.0, 100.0]);
    source.mix_layer_layer(&lower, &upper, &mut output);
    assert_eq!(values(&output), vec![0.0, 15.0, 60.0]);
}

#[test]
fn layer_clamp_in_all_shapes() {
    let source = reals(&[-1.0, 0.5, 3.0]);
    let lower = reals(&[0.0, 1.0, 0.0]);
    let upper = reals(&[1.0, 2.0, 2.0]);
    let mut output = Layer::new(3);
    source.clamp_value_value(Real(0.0), Real(1.0), &mut output);
    assert_eq!(values(&output), vec![0.0, 0.5, 1.0]);
    source.clamp_value_layer(Real(0.0), &upper, &mut output);
    assert_eq!(values(&output), vec![0.0, 0.5, 2.0]);
    source.clamp_layer_value(&lower, Real(1.0), &mut output);
    assert_eq!(values(&output), vec![0.0, 1.0, 1.0]);
    source.clamp_layer_layer(&lower, &upper, &mut output);
    assert_eq!(values(&output), vec![0.0, 1.0, 2.0]);
}

#[test]
fn layer_step_in_both_shapes() {
    let source = reals(&[-1.0, 0.5, 3.0]);
    let edges = reals(&[-2.0, 0.5, 4.0]);
    let mut output = Layer::new(3);
    source.step_value(Real(0.0), &mut output);
    assert_eq!(values(&output), vec![0.0, 1.0, 1.0]);
    source.step_layer(&edges, &mut output);
    assert_eq!(values(&output), vec![1.0, 0.0, 0.0]);
}

#[test]
fn layer_linearstep_in_all_shapes() {
    let source = reals(&[-1.0, 2.0, 9.0]);
    let lower = reals(&[-1.0, 0.0, 1.0]);
    let upper = reals(&[7.0, 4.0, 5.0]);
    let mut output = Layer::new(3);
    source.linearstep_value_value(Real(0.0), Real(8.0), &mut output);
    assert_eq!(values(&output), vec![0.0, 0.25, 1.0]);
    source.linearstep_value_layer(Real(0.0), &upper, &mut output);
    assert_eq!(values(&output), vec![0.0, 0.5, 1.0]);
    source.linearstep_layer_value(&lower, Real(8.0), &mut output);
    assert_eq!(values(&output), vec![0.0, 0.25, 1.0]);
    source.linearstep_layer_layer(&lower, &upper, &mut output);
    assert_eq!(values(&output), vec![0.0, 0.5, 1.0]);
}

#[test]
fn layer_smoothstep_in_all_shapes() {
    let source = reals(&[0.0, 2.0, 8.0]);
    let lower = reals(&[0.0, 0.0, 0.0]);
    let upper = reals(&[8.0, 8.0, 8.0]);
    let expected = vec![0.0, 0.15625, 1.0];
    let mut output = Layer::new(3);
    source.smoothstep_value_value(Real(0.0), Real(8.0), &mut output);
    assert_eq!(values(&output), expected);
    source.smoothstep_value_layer(Real(0.0), &upper, &mut output);
    assert_eq!(values(&output), expected);
    source.smoothstep_layer_value(&lower, Real(8.0), &mut output);
    assert_eq!(values(&output), expected);
    source.smoothstep_layer_layer(&lower, &upper, &mut output);
    assert_eq!(values(&output), expected);
}

#[test]
fn layer_smoothstep2_in_both_shapes() {
    let source = reals(&[0.0, 0.5, -0.5]);
    let slopes = reals(&[3.0, 2.0, 2.0]);
    let expected = smoothstep2(Real(0.5), Real(2.0)).0;
    let mut output = Layer::new(3);
    source.smoothstep2_value(Real(2.0), &mut output);
    assert_eq!(values(&output), vec![0.0, expected, smoothstep2(Real(-0.5), Real(2.0)).0]);
    source.smoothstep2_layer(&slopes, &mut output);
    assert_eq!(values(&output), vec![0.0, expected, smoothstep2(Real(-0.5), Real(2.0)).0]);
}

#[test]
fn layer_lerp_interpolates_every_element() {
    let xs = [Real(0.0), Real(8.0), Real(16.0)];
    let ys = [Real(0.0), Real(100.0), Real(50.0)];
    let source = reals(&[-5.0, 4.0, 8.0, 12.0, 99.0]);
    let mut output = Layer::new(5);
    let mut temp1 = Layer::new(5);
    let mut temp2 = Layer::new(5);
    source.lerp(&xs, &ys, &mut output, &mut temp1, &mut temp2);
    assert_eq!(values(&output), vec![0.0, 50.0, 100.0, 75.0, 50.0]);
    assert_eq!(temp1.len(), 5);
    assert_eq!(temp2.len(), 5);
}

#[test]
fn layer_lerp_agrees_with_the_interpolation_of_single_values() {
    let xs = [Real(-2.0), Real(0.0), Real(0.5), Real(4.0)];
    let ys = [Real(1.0), Real(-1.0), Real(3.0), Real(3.5)];
    let points = [-3.0, -2.0, -1.0, 0.0, 0.25, 0.5, 1.0, 3.0, 4.0, 5.0];
    let source = reals(&points);
    let mut output = Layer::new(points.len());
    let mut temp1 = Layer::new(points.len());
    let mut temp2 = Layer::new(points.len());
    source.lerp(&xs, &ys, &mut output, &mut temp1, &mut temp2);
    for (i, &x) in points.iter().enumerate() {
        assert_eq!(output[i], lerp(Real(x), &xs, &ys));
    }
}

#[test]
fn layer_lerp_of_an_empty_layer_does_nothing() {
    let xs = [Real(0.0), Real(0.0)];
    let ys = [Real(0.0), Real(1.0)];
    let source = reals(&[]);
    let mut output = Layer::new(0);
    let mut temp1 = Layer::new(0);
    let mut temp2 = Layer::new(0);
    source.lerp(&xs, &ys, &mut output, &mut temp1, &mut temp2);
    assert_eq!(output.len(), 0);
}

#[test]
fn average_divides_the_sum_by_the_count() {
    assert_eq!(reals(&[1.0, 2.0, 3.0, 6.0]).average(), Real(3.0));
    assert_eq!(reals(&[-4.0]).average(), Real(-4.0));
    assert!(reals(&[]).average().0.is_nan());
}

#[test]
fn weighted_average_divides_by_the_sum_of_the_weights() {
    let layer = reals(&[1.0, 3.0]);
    let weights = reals(&[1.0, 3.0]);
    assert_eq!(layer.weighted_average(&weights), Real(2.5));
    let longer = reals(&[1.0, 3.0, 100.0]);
    assert_eq!(longer.weighted_average(&weights), Real(2.5));
}

#[test]
fn min_max_of_reals() {
    assert_eq!(reals(&[3.0, -1.0, 2.0]).min_max::<Real>(), (Real(-1.0), Real(3.0)));
    assert_eq!(reals(&[]).min_max::<Real>(), (Real(0.0), Real(0.0)));
    assert_eq!(reals(&[3.0, -1.0, 2.0, -1.0]).min_max_indices::<Real>(), (1, 0));
    assert_eq!(scalar_layer::min_max(&reals(&[3.0, -1.0])), (Real(-1.0), Real(3.0)));
    assert_eq!(scalar_layer::max_index(&reals(&[3.0, 9.0, 9.0])), 1);
}

#[test]
fn rescale_to_range_maps_the_extremes_to_the_bounds() {
    let source = reals(&[1.0, 2.0, 3.0]);
    let mut output = Layer::new(3);
    source.rescale_to_range(Real(10.0), Real(20.0), &mut output);
    assert_eq!(values(&output), vec![10.0, 15.0, 20.0]);
}

#[test]
fn rescale_round_trip_reproduces_the_layer() {
    let original = [3.0, 7.5, -2.0, 10.0, 0.1, 9.999];
    let source = reals(&original);
    for (lo, hi) in [(-1.0, 1.0), (0.0, 1.0), (5.0, 5000.0), (-0.001, 0.002)] {
        let mut there = Layer::new(original.len());
        let mut back = Layer::new(original.len());
        source.rescale_to_range(Real(lo), Real(hi), &mut there);
        let (min, max) = there.min_max::<Real>();
        assert!(close(min.0, lo) && close(max.0, hi));
        there.rescale_to_range(Real(-2.0), Real(10.0), &mut back);
        for (i, &x) in original.iter().enumerate() {
            assert!((back[i].0 - x).abs() <= 1e-9, "{} against {}", back[i].0, x);
        }
    }
}

#[test]
fn normalize_maps_the_range_to_the_unit_range() {
    let source = reals(&[2.0, 4.0, 6.0]);
    let mut output = Layer::new(3);
    source.normalize(&mut output);
    assert_eq!(values(&output), vec![0.0, 0.5, 1.0]);
    scalar_layer::normalize(&source, &mut output);
    assert_eq!(values(&output), vec![0.0, 0.5, 1.0]);
}

#[test]
fn normalize_of_the_unit_range_changes_nothing() {
    let original = [0.0, 0.25, 1.0, 0.1, 0.7, 1.0, 0.0, 0.333];
    let source = reals(&original);
    let mut output = Layer::new(original.len());
    source.normalize(&mut output);
    assert_eq!(values(&output), original.to_vec());
    let mut again = Layer::new(original.len());
    output.normalize(&mut again);
    assert_eq!(values(&again), original.to_vec());
    scalar_layer::normalize(&source, &mut again);
    assert_eq!(values(&again), original.to_vec());
}

#[test]
fn degenerate_ranges_give_values_that_are_not_finite() {
    let flat = reals(&[1.0, 1.0]);
    let mut output = Layer::new(2);
    flat.normalize(&mut output);
    assert!(output[0].0.is_nan() && output[1].0.is_nan());
    let source = reals(&[6.0]);
    let mut single = Layer::new(1);
    source.rescale_from_to_range(Real(5.0), Real(5.0), Real(0.0), Real(1.0), &mut single);
    assert_eq!(single[0].0, f64::INFINITY);
}

#[test]
fn rescale_from_to_and_rescale_to_scale_the_upper_bound() {
    let source = reals(&[2.0, 4.0, 8.0]);
    let mut output = Layer::new(3);
    source.rescale_from_to(Real(4.0), Real(2.0), &mut output);
    assert_eq!(values(&output), vec![1.0, 2.0, 4.0]);
    source.rescale_to(Real(1.0), &mut output);
    assert_eq!(values(&output), vec![0.25, 0.5, 1.0]);
}

#[test]
fn scalar_rescale_of_reals() {
    let source = reals(&[1.0, 2.0, 3.0]);
    let mut output = Layer::new(3);
    scalar_layer::rescale_from_to(&source, &mut output, Real(1.0), Real(3.0), Real(0.0), Real(8.0));
    assert_eq!(values(&output), vec![0.0, 4.0, 8.0]);
    scalar_layer::rescale_to(&source, &mut output, Real(-1.0), Real(1.0));
    assert_eq!(values(&output), vec![-1.0, 0.0, 1.0]);
}

#[test]
fn unary_operations_of_reals() {
    let source = reals(&[1.0, 4.0, 0.25]);
    let mut output = Layer::new(3);
    source.inv(&mut output);
    assert_eq!(values(&output), vec![1.0, 0.25, 4.0]);
    source.sqrt(&mut output);
    assert_eq!(values(&output), vec![1.0, 2.0, 0.5]);
    reals(&[0.0, 1.0]).e_x(&mut output);
    assert_eq!(values(&output), vec![1.0, std::f64::consts::E, 0.5]);
}

#[test]
fn powers_of_reals() {
    let source = reals(&[1.0, 2.0, 3.0]);
    let exponents = reals(&[2.0, 3.0, 0.0]);
    let mut output = Layer::new(3);
    source.pow_value(2i32, &mut output);
    assert_eq!(values(&output), vec![1.0, 4.0, 9.0]);
    source.pow_value(Real(2.0), &mut output);
    assert_eq!(values(&output), vec![1.0, 4.0, 9.0]);
    source.exp_value(Real(2.0), &mut output);
    assert_eq!(values(&output), vec![2.0, 4.0, 8.0]);
    source.pow_layer(&exponents, &mut output);
    assert_eq!(values(&output), vec![1.0, 8.0, 1.0]);
}
