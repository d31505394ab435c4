use field_layers::layer::Layer;
use field_layers::scalar_layer;
use std::collections::HashSet;

fn bytes(values: &[u8]) -> Layer<u8> {
    Layer::from_vec(values.to_vec())
}

fn ints(values: &[i32]) -> Layer<i32> {
    Layer::from_vec(values.to_vec())
}

#[test]
fn min_max_finds_the_extremes() {
    assert_eq!(bytes(&[3, 1, 2]).min_max::<u8>(), (1, 3));
    assert_eq!(ints(&[-5, 7, 0, 7, -5]).min_max::<i32>(), (-5, 7));
    assert_eq!(ints(&[4]).min_max::<i32>(), (4, 4));
}

#[test]
fn min_max_of_an_empty_layer_is_the_default() {
    assert_eq!(bytes(&[]).min_max::<u8>(), (0, 0));
    assert_eq!(ints(&[]).min_max::<i32>(), (0, 0));
}

#[test]
fn min_max_of_elements_that_equal_a_sentinel_are_elements() {
    assert_eq!(bytes(&[255, 255]).min_max::<u8>(), (255, 255));
    assert_eq!(bytes(&[0, 0]).min_max::<u8>(), (0, 0));
    assert_eq!(bytes(&[255, 0, 255]).min_max::<u8>(), (0, 255));
    assert_eq!(ints(&[i32::MAX]).min_max::<i32>(), (i32::MAX, i32::MAX));
    assert_eq!(ints(&[i32::MIN]).min_max::<i32>(), (i32::MIN, i32::MIN));
    assert_eq!(ints(&[i32::MIN, i32::MAX]).min_max::<i32>(), (i32::MIN, i32::MAX));
}

#[test]
fn min_max_agrees_with_min_max_indices() {
    for values in [vec![255u8, 255], vec![0, 0], vec![3, 1, 2], vec![7], vec![9, 9, 1, 1]] {
        let layer = bytes(&values);
        let (min, max) = layer.min_max::<u8>();
        let (min_index, max_index) = layer.min_max_indices::<u8>();
        assert_eq!(min, values[min_index]);
        assert_eq!(max, values[max_index]);
        assert_eq!(min, *values.iter().min().unwrap());
        assert_eq!(max, *values.iter().max().unwrap());
    }
}

#[test]
fn rescaling_takes_its_range_from_elements_that_equal_a_sentinel() {
    let source = bytes(&[255, 255, 0]);
    let mut output = Layer::new(3);
    source.rescale_to::<u8>(5, &mut output);
    assert_eq!(output.as_slice(), &[0, 0, 0]);
    let high = bytes(&[255, 254]);
    let mut scaled = Layer::new(2);
    high.rescale_to_range::<u8>(0, 1, &mut scaled);
    assert_eq!(scaled.as_slice(), &[1, 0]);
}

#[test]
fn min_max_indices_point_at_the_extremes() {
    assert_eq!(bytes(&[3, 1, 2]).min_max_indices::<u8>(), (1, 0));
    assert_eq!(ints(&[0, -1, 9, 4]).min_max_indices::<i32>(), (1, 2));
}

#[test]
fn min_max_indices_prefer_the_first_of_equal_elements() {
    assert_eq!(ints(&[2, 1, 5, 1, 5]).min_max_indices::<i32>(), (1, 2));
    assert_eq!(ints(&[7, 7, 7]).min_max_indices::<i32>(), (0, 0));
}

#[test]
fn min_max_indices_of_an_empty_layer_are_zero() {
    assert_eq!(ints(&[]).min_max_indices::<i32>(), (0, 0));
    assert_eq!(bytes(&[255]).min_max_indices::<u8>(), (0, 0));
}

#[test]
fn unique_collects_the_distinct_elements() {
    let set = ints(&[3, 1, 3, 2, 1]).unique();
    let expected: HashSet<i32> = [1, 2, 3].into_iter().collect();
    assert_eq!(set, expected);
    assert!(ints(&[]).unique().is_empty());
}

#[test]
fn rescale_from_to_range_maps_one_range_to_another() {
    let source = ints(&[0, 5, 10]);
    let mut output = Layer::new(3);
    source.rescale_from_to_range(0, 10, 0, 100, &mut output);
    assert_eq!(output.as_slice(), &[0, 50, 100]);
    source.rescale_from_to_range(0, 10, 100, 200, &mut output);
    assert_eq!(output.as_slice(), &[100, 150, 200]);
}

#[test]
fn rescale_to_range_infers_the_old_range() {
    let source = ints(&[10, 20, 15]);
    let mut output = Layer::new(3);
    source.rescale_to_range(0, 100, &mut output);
    assert_eq!(output.as_slice(), &[0, 100, 50]);
}

#[test]
fn rescale_from_to_scales_the_upper_bound() {
    let source = ints(&[0, 2, 4]);
    let mut output = Layer::new(3);
    source.rescale_from_to(4, 12, &mut output);
    assert_eq!(output.as_slice(), &[0, 6, 12]);
}

#[test]
fn rescale_to_infers_the_old_upper_bound() {
    let source = bytes(&[3, 1, 2]);
    let mut output = Layer::new(3);
    source.rescale_to::<u8>(9, &mut output);
    assert_eq!(output.as_slice(), &[9, 3, 6]);
}

#[test]
fn rescaling_leaves_the_tail_of_a_longer_output() {
    let source = ints(&[0, 10]);
    let mut output = ints(&[7, 7, 7]);
    source.rescale_from_to_range(0, 10, 0, 20, &mut output);
    assert_eq!(output.as_slice(), &[0, 20, 7]);
}

#[test]
fn scalar_min_max_finds_the_extremes() {
    assert_eq!(scalar_layer::min_max(&ints(&[4, -2, 9])), (-2, 9));
    assert_eq!(scalar_layer::min_max(&bytes(&[6, 6])), (6, 6));
}

#[test]
fn scalar_min_max_of_elements_that_equal_a_sentinel_are_elements() {
    assert_eq!(scalar_layer::min_max(&bytes(&[255, 255])), (255, 255));
    assert_eq!(scalar_layer::min_max(&bytes(&[0, 0])), (0, 0));
    assert_eq!(scalar_layer::min_max(&ints(&[i32::MAX, i32::MIN])), (i32::MIN, i32::MAX));
}

#[test]
fn scalar_min_max_of_an_empty_layer_is_the_pair_of_sentinels() {
    assert_eq!(scalar_layer::min_max(&ints(&[])), (i32::MAX, i32::MIN));
    assert_eq!(scalar_layer::min_max(&bytes(&[])), (255, 0));
}

#[test]
fn scalar_max_index_points_at_the_first_greatest_element() {
    assert_eq!(scalar_layer::max_index(&ints(&[1, 9, 3, 9])), 1);
    assert_eq!(scalar_layer::max_index(&ints(&[])), 0);
    assert_eq!(scalar_layer::max_index(&bytes(&[0, 0])), 0);
}

#[test]
fn scalar_rescale_from_to_maps_one_range_to_another() {
    let source = ints(&[0, 5, 10]);
    let mut output = Layer::new(3);
    scalar_layer::rescale_from_to(&source, &mut output, 0, 10, -100, 100);
    assert_eq!(output.as_slice(), &[-100, 0, 100]);
}

#[test]
fn scalar_rescale_to_infers_the_old_range() {
    let source = ints(&[2, 4, 3]);
    let mut output = Layer::new(3);
    scalar_layer::rescale_to(&source, &mut output, 0, 10);
    assert_eq!(output.as_slice(), &[0, 10, 5]);
}

#[test]
fn scalar_unique_collects_the_distinct_elements() {
    let set = scalar_layer::unique(&bytes(&[9, 9, 8]));
    let expected: HashSet<u8> = [8, 9].into_iter().collect();
    assert_eq!(set, expected);
}
