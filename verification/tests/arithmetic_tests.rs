use field_layers::layer::Layer;

fn ints(values: &[i32]) -> Layer<i32> {
    Layer::from_vec(values.to_vec())
}

fn flags(values: &[bool]) -> Layer<bool> {
    Layer::from_vec(values.to_vec())
}

#[test]
fn min_and_max_with_a_value() {
    let source = ints(&[1, 5, 3]);
    let mut output = Layer::new(3);
    source.min_value(3, &mut output);
    assert_eq!(output.as_slice(), &[1, 3, 3]);
    source.max_value(3, &mut output);
    assert_eq!(output.as_slice(), &[3, 5, 3]);
}

#[test]
fn min_and_max_with_a_layer() {
    let source = ints(&[1, 5, 3]);
    let other = ints(&[2, 4, 3]);
    let mut output = Layer::new(3);
    source.min_layer(&other, &mut output);
    assert_eq!(output.as_slice(), &[1, 4, 3]);
    source.max_layer(&other, &mut output);
    assert_eq!(output.as_slice(), &[2, 5, 3]);
}

#[test]
fn comparison_masks_with_a_value() {
    let source = ints(&[1, 2, 3]);
    let mut mask = Layer::new(3);
    source.get_lt_value_mask(2, &mut mask);
    assert_eq!(mask.as_slice(), &[true, false, false]);
    source.get_le_value_mask(2, &mut mask);
    assert_eq!(mask.as_slice(), &[true, true, false]);
    source.get_gt_value_mask(2, &mut mask);
    assert_eq!(mask.as_slice(), &[false, false, true]);
    source.get_ge_value_mask(2, &mut mask);
    assert_eq!(mask.as_slice(), &[false, true, true]);
    source.get_eq_value_mask(2, &mut mask);
    assert_eq!(mask.as_slice(), &[false, true, false]);
    source.get_ne_value_mask(2, &mut mask);
    assert_eq!(mask.as_slice(), &[true, false, true]);
}

#[test]
fn comparison_masks_with_a_layer() {
    let source = ints(&[1, 2, 3]);
    let other = ints(&[3, 2, 1]);
    let mut mask = Layer::new(3);
    source.get_lt_layer_mask(&other, &mut mask);
    assert_eq!(mask.as_slice(), &[true, false, false]);
    source.get_le_layer_mask(&other, &mut mask);
    assert_eq!(mask.as_slice(), &[true, true, false]);
    source.get_gt_layer_mask(&other, &mut mask);
    assert_eq!(mask.as_slice(), &[false, false, true]);
    source.get_ge_layer_mask(&other, &mut mask);
    assert_eq!(mask.as_slice(), &[false, true, true]);
    source.get_eq_layer_mask(&other, &mut mask);
    assert_eq!(mask.as_slice(), &[false, true, false]);
    source.get_ne_layer_mask(&other, &mut mask);
    assert_eq!(mask.as_slice(), &[true, false, true]);
}

#[test]
fn multiplication_and_division() {
    let source = ints(&[6, -9, 12]);
    let other = ints(&[3, 3, -4]);
    let mut output = Layer::new(3);
    source.mul_value(2, &mut output);
    assert_eq!(output.as_slice(), &[12, -18, 24]);
    source.mul_layer(&other, &mut output);
    assert_eq!(output.as_slice(), &[18, -27, -48]);
    source.div_value(3, &mut output);
    assert_eq!(output.as_slice(), &[2, -3, 4]);
    source.div_layer(&other, &mut output);
    assert_eq!(output.as_slice(), &[2, -3, -3]);
}

#[test]
fn integer_division_truncates_towards_zero() {
    let source = ints(&[7, -7]);
    let mut output = Layer::new(2);
    source.div_value(2, &mut output);
    assert_eq!(output.as_slice(), &[3, -3]);
}

#[test]
fn addition_and_subtraction() {
    let source = ints(&[1, 2, 3]);
    let other = ints(&[10, 20, 30]);
    let mut output = Layer::new(3);
    source.add_value(5, &mut output);
    assert_eq!(output.as_slice(), &[6, 7, 8]);
    source.add_layer(&other, &mut output);
    assert_eq!(output.as_slice(), &[11, 22, 33]);
    source.sub_value(5, &mut output);
    assert_eq!(output.as_slice(), &[-4, -3, -2]);
    source.sub_layer(&other, &mut output);
    assert_eq!(output.as_slice(), &[-9, -18, -27]);
}

#[test]
fn weighted_addition_and_subtraction() {
    let source = ints(&[1, 2, 3]);
    let other = ints(&[10, 20, 30]);
    let weights = ints(&[0, 1, 2]);
    let mut output = Layer::new(3);
    source.add_value_weighted(5, &weights, &mut output);
    assert_eq!(output.as_slice(), &[1, 7, 13]);
    source.add_layer_weighted(&other, &weights, &mut output);
    assert_eq!(output.as_slice(), &[1, 22, 63]);
    source.sub_value_weighted(&weights, 5, &mut output);
    assert_eq!(output.as_slice(), &[1, -3, -7]);
    source.sub_layer_weighted(&other, &weights, &mut output);
    assert_eq!(output.as_slice(), &[1, -18, -57]);
}

#[test]
fn add_value_by_mask_adds_where_the_mask_is_set() {
    let source = ints(&[1, 2, 3]);
    let mask = flags(&[true, false, true]);
    let mut output = Layer::new(3);
    source.add_value_by_mask(5, &mask, &mut output);
    assert_eq!(output.as_slice(), &[6, 2, 8]);
}

#[test]
fn masked_addition_and_subtraction() {
    let source = ints(&[1, 2, 3]);
    let other = ints(&[10, 20, 30]);
    let mask = flags(&[false, true, true]);
    let mut output = Layer::new(3);
    source.add_layer_by_mask(&other, &mask, &mut output);
    assert_eq!(output.as_slice(), &[1, 22, 33]);
    source.sub_value_by_mask(1, &mask, &mut output);
    assert_eq!(output.as_slice(), &[1, 1, 2]);
    source.sub_layer_by_mask(&other, &mask, &mut output);
    assert_eq!(output.as_slice(), &[1, -18, -27]);
}

#[test]
fn masked_operations_stop_at_the_shorter_mask() {
    let source = ints(&[1, 2, 3]);
    let mask = flags(&[true]);
    let mut output = ints(&[9, 9, 9]);
    source.add_value_by_mask(5, &mask, &mut output);
    assert_eq!(output.as_slice(), &[6, 9, 9]);
}

#[test]
fn selection_takes_from_the_other_operand_where_the_mask_is_set() {
    let source = ints(&[1, 2, 3]);
    let other = ints(&[10, 20, 30]);
    let mask = flags(&[true, false, true]);
    let mut output = Layer::new(3);
    source.copy_into_selection(&other, &mask, &mut output);
    assert_eq!(output.as_slice(), &[10, 2, 30]);
    source.fill_into_selection(0, &mask, &mut output);
    assert_eq!(output.as_slice(), &[0, 2, 0]);
}

#[test]
fn magnitudes_of_unsigned_integers_are_the_values() {
    let source = Layer::from_vec(vec![0u8, 3, 255]);
    let mut output: Layer<u8> = Layer::new(3);
    source.to_magnitudes(&mut output);
    assert_eq!(output.as_slice(), &[0, 3, 255]);
}
