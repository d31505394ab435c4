use field_layers::dot::Dot;
use field_layers::entrywise_ops::{
    EntrywiseAdd, EntrywiseDiv, EntrywiseEX, EntrywiseInv, EntrywiseMul, EntrywisePow,
    EntrywiseSqrt, EntrywiseSub,
};
use field_layers::layer::Layer;
use field_layers::magnitude::Magnitude;
use field_layers::normalize::Normalize;
use field_layers::similarity::Similarity;
use field_layers::vector_layer;
use std::ops::Mul;

/// A vector of the plane, as the element type of the layers under test.
#[derive(Clone, Copy, Debug, Default, PartialEq)]
struct V2 {
    x: f64,
    y: f64,
}

/// A weight that scales a vector.
#[derive(Clone, Copy, Debug, Default, PartialEq)]
struct Weight(f64);

fn v(x: f64, y: f64) -> V2 {
    V2 { x, y }
}

impl Mul<V2> for Weight {
    type Output = V2;

    fn mul(self, rhs: V2) -> V2 {
        v(self.0 * rhs.x, self.0 * rhs.y)
    }
}

impl Dot for V2 {
    type Output = f64;

    fn dot_req(self, _rhs: V2) -> bool {
        true
    }

    fn dot_spec(self, rhs: V2) -> f64 {
        self.x * rhs.x + self.y * rhs.y
    }

    fn dot(self, rhs: V2) -> f64 {
        self.x * rhs.x + self.y * rhs.y
    }
}

impl Magnitude for V2 {
    type Output = f64;

    fn magnitude_proportional_spec(&self) -> f64 {
        self.x * self.x + self.y * self.y
    }

    fn magnitude_spec(&self) -> f64 {
        (self.x * self.x + self.y * self.y).sqrt()
    }

    fn magnitude_proportional(&self) -> f64 {
        self.x * self.x + self.y * self.y
    }

    fn magnitude(&self) -> f64 {
        (self.x * self.x + self.y * self.y).sqrt()
    }
}

impl Similarity for V2 {
    type Output = f64;

    fn similarity_req(self, _rhs: V2) -> bool {
        true
    }

    fn similarity_spec(self, rhs: V2) -> f64 {
        self.dot(rhs) / (self.magnitude() * rhs.magnitude()).sqrt()
    }

    fn similarity(self, rhs: V2) -> f64 {
        self.dot(rhs) / (self.magnitude() * rhs.magnitude()).sqrt()
    }
}

impl Normalize for V2 {
    fn normalize_req(self) -> bool {
        true
    }

    fn normalize_spec(self) -> V2 {
        let m = self.magnitude();
        v(self.x / m, self.y / m)
    }

    fn normalize(self) -> V2 {
        let m = self.magnitude();
        v(self.x / m, self.y / m)
    }
}

impl EntrywiseAdd for V2 {
    type Output = V2;

    fn entrywise_add_req(self, _rhs: V2) -> bool {
        true
    }

    fn entrywise_add_spec(self, rhs: V2) -> V2 {
        v(self.x + rhs.x, self.y + rhs.y)
    }

    fn entrywise_add(self, rhs: V2) -> V2 {
        v(self.x + rhs.x, self.y + rhs.y)
    }
}

impl EntrywiseSub for V2 {
    type Output = V2;

    fn entrywise_sub_req(self, _rhs: V2) -> bool {
        true
    }

    fn entrywise_sub_spec(self, rhs: V2) -> V2 {
        v(self.x - rhs.x, self.y - rhs.y)
    }

    fn entrywise_sub(self, rhs: V2) -> V2 {
        v(self.x - rhs.x, self.y - rhs.y)
    }
}

impl EntrywiseMul for V2 {
    type Output = V2;

    fn entrywise_mul_req(self, _rhs: V2) -> bool {
        true
    }

    fn entrywise_mul_spec(self, rhs: V2) -> V2 {
        v(self.x * rhs.x, self.y * rhs.y)
    }

    fn entrywise_mul(self, rhs: V2) -> V2 {
        v(self.x * rhs.x, self.y * rhs.y)
    }
}

impl EntrywiseDiv for V2 {
    type Output = V2;

    fn entrywise_div_req(self, _rhs: V2) -> bool {
        true
    }

    fn entrywise_div_spec(self, rhs: V2) -> V2 {
        v(self.x / rhs.x, self.y / rhs.y)
    }

    fn entrywise_div(self, rhs: V2) -> V2 {
        v(self.x / rhs.x, self.y / rhs.y)
    }
}

impl EntrywisePow<f64> for V2 {
    type Output = V2;

    fn entrywise_pow_req(self, _rhs: f64) -> bool {
        true
    }

    fn entrywise_pow_spec(self, rhs: f64) -> V2 {
        v(self.x.powf(rhs), self.y.powf(rhs))
    }

    fn entrywise_pow(self, rhs: f64) -> V2 {
        v(self.x.powf(rhs), self.y.powf(rhs))
    }
}

impl EntrywisePow<V2> for V2 {
    type Output = V2;

    fn entrywise_pow_req(self, _rhs: V2) -> bool {
        true
    }

    fn entrywise_pow_spec(self, rhs: V2) -> V2 {
        v(self.x.powf(rhs.x), self.y.powf(rhs.y))
    }

    fn entrywise_pow(self, rhs: V2) -> V2 {
        v(self.x.powf(rhs.x), self.y.powf(rhs.y))
    }
}

impl EntrywiseSqrt for V2 {
    type Output = V2;

    fn entrywise_sqrt_req(self) -> bool {
        true
    }

    fn entrywise_sqrt_spec(self) -> V2 {
        v(self.x.sqrt(), self.y.sqrt())
    }

    fn entrywise_sqrt(self) -> V2 {
        v(self.x.sqrt(), self.y.sqrt())
    }
}

impl EntrywiseInv for V2 {
    type Output = V2;

    fn entrywise_inv_req(self) -> bool {
        true
    }

    fn entrywise_inv_spec(self) -> V2 {
        v(self.x.recip(), self.y.recip())
    }

    fn entrywise_inv(self) -> V2 {
        v(self.x.recip(), self.y.recip())
    }
}

impl EntrywiseEX for V2 {
    type Output = V2;

    fn entrywise_e_x_req(self) -> bool {
        true
    }

    fn entrywise_e_x_spec(self) -> V2 {
        v(self.x.exp(), self.y.exp())
    }

    fn entrywise_e_x(self) -> V2 {
        v(self.x.exp(), self.y.exp())
    }
}

fn vectors(values: &[(f64, f64)]) -> Layer<V2> {
    Layer::from_vec(values.iter().map(|&(x, y)| v(x, y)).collect())
}

fn pairs(layer: &Layer<V2>) -> Vec<(f64, f64)> {
    layer.iter().map(|p| (p.x, p.y)).collect()
}

#[test]
fn dot_products() {
    let source = vectors(&[(1.0, 2.0), (3.0, 4.0)]);
    let other = vectors(&[(5.0, 6.0), (-1.0, 0.5)]);
    let mut output: Layer<f64> = Layer::new(2);
    source.dot_value(v(2.0, 1.0), &mut output);
    assert_eq!(output.as_slice(), &[4.0, 10.0]);
    source.dot_layer(&other, &mut output);
    assert_eq!(output.as_slice(), &[17.0, -1.0]);
}

#[test]
fn similarities() {
    let source = vectors(&[(3.0, 4.0), (0.0, 5.0)]);
    let other = vectors(&[(3.0, 4.0), (5.0, 0.0)]);
    let mut output: Layer<f64> = Layer::new(2);
    source.similarity_value(v(3.0, 4.0), &mut output);
    assert_eq!(output.as_slice(), &[5.0, 4.0]);
    source.similarity_layer(&other, &mut output);
    assert_eq!(output.as_slice(), &[5.0, 0.0]);
}

#[test]
fn magnitudes_of_vectors() {
    let source = vectors(&[(3.0, 4.0), (0.0, 0.0), (-5.0, 12.0)]);
    let mut output: Layer<f64> = Layer::new(3);
    source.to_magnitudes(&mut output);
    assert_eq!(output.as_slice(), &[5.0, 0.0, 13.0]);
}

#[test]
fn normalize_each_makes_unit_vectors() {
    let source = vectors(&[(3.0, 4.0), (0.0, -2.0)]);
    let mut output = Layer::new(2);
    source.normalize_each(&mut output);
    assert_eq!(pairs(&output), vec![(0.6, 0.8), (0.0, -1.0)]);
    let mut again = Layer::new(2);
    vector_layer::normalize_each(&source, &mut again);
    assert_eq!(pairs(&again), vec![(0.6, 0.8), (0.0, -1.0)]);
}

#[test]
fn entrywise_addition_and_subtraction() {
    let source = vectors(&[(1.0, 2.0), (3.0, 4.0)]);
    let other = vectors(&[(10.0, 20.0), (30.0, 40.0)]);
    let mut output = Layer::new(2);
    source.entrywise_add_value(v(1.0, -1.0), &mut output);
    assert_eq!(pairs(&output), vec![(2.0, 1.0), (4.0, 3.0)]);
    source.entrywise_add_layer(&other, &mut output);
    assert_eq!(pairs(&output), vec![(11.0, 22.0), (33.0, 44.0)]);
    source.entrywise_sub_value(v(1.0, -1.0), &mut output);
    assert_eq!(pairs(&output), vec![(0.0, 3.0), (2.0, 5.0)]);
    source.entrywise_sub_layer(&other, &mut output);
    assert_eq!(pairs(&output), vec![(-9.0, -18.0), (-27.0, -36.0)]);
}

#[test]
fn weighted_entrywise_addition_and_subtraction() {
    let source = vectors(&[(1.0, 2.0), (3.0, 4.0)]);
    let other = vectors(&[(10.0, 20.0), (30.0, 40.0)]);
    let weights = Layer::from_vec(vec![Weight(0.5), Weight(2.0)]);
    let mut output = Layer::new(2);
    source.entrywise_add_value_weighted(v(2.0, 4.0), &weights, &mut output);
    assert_eq!(pairs(&output), vec![(2.0, 4.0), (7.0, 12.0)]);
    source.entrywise_add_layer_weighted(&other, &weights, &mut output);
    assert_eq!(pairs(&output), vec![(6.0, 12.0), (63.0, 84.0)]);
    source.entrywise_sub_value_weighted(&weights, v(2.0, 4.0), &mut output);
    assert_eq!(pairs(&output), vec![(0.0, 0.0), (-1.0, -4.0)]);
    source.entrywise_sub_layer_weighted(&other, &weights, &mut output);
    assert_eq!(pairs(&output), vec![(-4.0, -8.0), (-57.0, -76.0)]);
}

#[test]
fn masked_entrywise_addition_and_subtraction() {
    let source = vectors(&[(1.0, 2.0), (3.0, 4.0)]);
    let other = vectors(&[(10.0, 20.0), (30.0, 40.0)]);
    let mask = Layer::from_vec(vec![false, true]);
    let mut output = Layer::new(2);
    source.entrywise_add_value_by_mask(v(1.0, 1.0), &mask, &mut output);
    assert_eq!(pairs(&output), vec![(1.0, 2.0), (4.0, 5.0)]);
    source.entrywise_add_layer_by_mask(&other, &mask, &mut output);
    assert_eq!(pairs(&output), vec![(1.0, 2.0), (33.0, 44.0)]);
    source.entrywise_sub_value_by_mask(v(1.0, 1.0), &mask, &mut output);
    assert_eq!(pairs(&output), vec![(1.0, 2.0), (2.0, 3.0)]);
    source.entrywise_sub_layer_by_mask(&other, &mask, &mut output);
    assert_eq!(pairs(&output), vec![(1.0, 2.0), (-27.0, -36.0)]);
}

#[test]
fn entrywise_products_quotients_and_powers() {
    let source = vectors(&[(1.0, 2.0), (3.0, 4.0)]);
    let other = vectors(&[(2.0, 0.5), (3.0, 2.0)]);
    let mut output = Layer::new(2);
    source.entrywise_mul_value(v(2.0, 3.0), &mut output);
    assert_eq!(pairs(&output), vec![(2.0, 6.0), (6.0, 12.0)]);
    source.entrywise_mul_layer(&other, &mut output);
    assert_eq!(pairs(&output), vec![(2.0, 1.0), (9.0, 8.0)]);
    source.entrywise_div_value(v(2.0, 4.0), &mut output);
    assert_eq!(pairs(&output), vec![(0.5, 0.5), (1.5, 1.0)]);
    source.entrywise_div_layer(&other, &mut output);
    assert_eq!(pairs(&output), vec![(0.5, 4.0), (1.0, 2.0)]);
    source.entrywise_pow_value(2.0, &mut output);
    assert_eq!(pairs(&output), vec![(1.0, 4.0), (9.0, 16.0)]);
    source.entrywise_pow_layer(&other, &mut output);
    assert_eq!(pairs(&output), vec![(1.0, 2.0f64.sqrt()), (27.0, 16.0)]);
    source.entrywise_exp_value(v(2.0, 3.0), &mut output);
    assert_eq!(pairs(&output), vec![(2.0, 9.0), (8.0, 81.0)]);
}

#[test]
fn entrywise_unary_operations() {
    let source = vectors(&[(1.0, 4.0), (0.25, 16.0)]);
    let mut output = Layer::new(2);
    source.entrywise_inv(&mut output);
    assert_eq!(pairs(&output), vec![(1.0, 0.25), (4.0, 0.0625)]);
    source.entrywise_sqrt(&mut output);
    assert_eq!(pairs(&output), vec![(1.0, 2.0), (0.5, 4.0)]);
    vectors(&[(0.0, 1.0)]).entrywise_e_x(&mut output);
    assert_eq!(pairs(&output), vec![(1.0, std::f64::consts::E), (0.5, 4.0)]);
}
