use field_layers::layer::Layer;

fn layer_of<T>(values: &[T]) -> Layer<T>
where
    T: Clone,
{
    Layer::from_vec(values.to_vec())
}

#[test]
fn new_layer_holds_defaults() {
    let layer: Layer<i32> = Layer::new(4);
    assert_eq!(layer.len(), 4);
    assert_eq!(layer.as_slice(), &[0, 0, 0, 0]);
    let flags: Layer<bool> = Layer::new(2);
    assert_eq!(flags.as_slice(), &[false, false]);
}

#[test]
fn new_layer_of_length_zero_is_empty() {
    let empty: Layer<u8> = Layer::new(0);
    assert_eq!(empty.len(), 0);
    assert!(empty.as_slice().is_empty());
}

#[test]
fn from_vec_and_into_vec_keep_the_elements() {
    let layer = Layer::from_vec(vec![3u8, 1, 2]);
    assert_eq!(layer.len(), 3);
    assert_eq!(layer.into_vec(), vec![3, 1, 2]);
}

#[test]
fn get_and_set_reach_single_elements() {
    let mut layer = layer_of(&[10i64, 20, 30]);
    assert_eq!(layer.get(1), 20);
    layer.set(1, 25);
    assert_eq!(layer.as_slice(), &[10, 25, 30]);
    assert_eq!(layer.get(2), 30);
}

#[test]
fn layer_reads_as_a_slice() {
    let layer = layer_of(&[4u16, 5, 6]);
    assert_eq!(layer[0], 4);
    assert_eq!(layer[2], 6);
    assert_eq!(layer.iter().copied().max(), Some(6));
    assert_eq!(layer.first(), Some(&4));
}

#[test]
fn map1_applies_the_function_to_each_element() {
    let source = layer_of(&[1i32, 2, 3]);
    let mut output: Layer<i64> = Layer::new(3);
    source.map1(&mut output, |s| i64::from(s) * 10);
    assert_eq!(output.as_slice(), &[10, 20, 30]);
}

#[test]
fn map1_leaves_the_tail_of_a_longer_output() {
    let source = layer_of(&[1i32, 2]);
    let mut output = layer_of(&[7i32, 7, 7, 7]);
    source.map1(&mut output, |s| s + 1);
    assert_eq!(output.as_slice(), &[2, 3, 7, 7]);
    assert_eq!(output.len(), 4);
}

#[test]
fn map1_with_hands_the_value_to_each_call() {
    let source = layer_of(&[1i32, 2, 3]);
    let mut output: Layer<i32> = Layer::new(3);
    source.map1_with(4, &mut output, |s, v| s * v);
    assert_eq!(output.as_slice(), &[4, 8, 12]);
}

#[test]
fn map2_stops_at_the_shorter_input() {
    let a = layer_of(&[1i32, 2, 3, 4]);
    let b = layer_of(&[10i32, 20]);
    let mut output = layer_of(&[-1i32, -1, -1, -1]);
    a.map2(&b, &mut output, |x, y| x + y);
    assert_eq!(output.as_slice(), &[11, 22, -1, -1]);
}

#[test]
fn map3_stops_at_the_shortest_input() {
    let a = layer_of(&[1i32, 2, 3]);
    let b = layer_of(&[10i32, 20, 30, 40]);
    let c = layer_of(&[true, false]);
    let mut output = layer_of(&[0i32, 0, 0]);
    a.map3(&b, &c, &mut output, |x, y, m| if m { x + y } else { x - y });
    assert_eq!(output.as_slice(), &[11, -18, 0]);
}

#[test]
fn convert_widens_each_element() {
    let bytes = layer_of(&[0u8, 7, 255]);
    let wide: Layer<u32> = bytes.convert();
    assert_eq!(wide.as_slice(), &[0u32, 7, 255]);
    let signed: Layer<i64> = layer_of(&[-3i32, 4]).convert();
    assert_eq!(signed.as_slice(), &[-3i64, 4]);
}

#[test]
fn swizzle_gathers_by_mapping() {
    let source = layer_of(&[8, 0, 4, 8, 1]);
    let mapping = layer_of(&[4usize, 2, 0, 3]);
    let mut output = Layer::new(4);
    source.swizzle(&mapping, &mut output);
    assert_eq!(output.as_slice(), &[1, 4, 8, 8]);
}

#[test]
fn swizzle_may_repeat_a_source_index() {
    let source = layer_of(&[5u8, 6]);
    let mapping = layer_of(&[1usize, 1, 0, 1]);
    let mut output = layer_of(&[0u8, 0, 0, 0, 9]);
    source.swizzle(&mapping, &mut output);
    assert_eq!(output.as_slice(), &[6, 6, 5, 6, 9]);
}

#[test]
fn inverse_swizzle_add_scatters_by_mapping() {
    let source = layer_of(&[1, 2, 3, 0, 9]);
    let mapping = layer_of(&[1usize, 4, 3, 2]);
    let add = layer_of(&[2, -9, 8, 5]);
    let mut output = Layer::new(5);
    source.copy_into(&mut output);
    source.inverse_swizzle_add(&mapping, &add, &mut output);
    assert_eq!(output.as_slice(), &[1, 4, 8, 8, 0]);
}

#[test]
fn inverse_swizzle_add_keeps_what_the_mapping_does_not_name() {
    let source = layer_of(&[1, 2, 3, 0, 9]);
    let mapping = layer_of(&[1usize, 4]);
    let add = layer_of(&[2, -9]);
    let mut output = layer_of(&[70, 71, 72, 73, 74]);
    source.inverse_swizzle_add(&mapping, &add, &mut output);
    assert_eq!(output.as_slice(), &[70, 4, 72, 73, 0]);
}

#[test]
fn inverse_swizzle_add_lets_the_last_duplicate_stand() {
    let source = layer_of(&[10, 20, 30]);
    let mapping = layer_of(&[2usize, 0, 2]);
    let add = layer_of(&[1, 2, 3]);
    let mut output = layer_of(&[0, 0, 0]);
    source.inverse_swizzle_add(&mapping, &add, &mut output);
    assert_eq!(output.as_slice(), &[12, 0, 33]);
}

#[test]
fn inverse_swizzle_add_stops_at_the_shorter_of_mapping_and_addend() {
    let source = layer_of(&[10, 20, 30]);
    let mapping = layer_of(&[0usize, 1, 2]);
    let add = layer_of(&[1]);
    let mut output = layer_of(&[0, 0, 0]);
    source.inverse_swizzle_add(&mapping, &add, &mut output);
    assert_eq!(output.as_slice(), &[11, 0, 0]);
}

#[test]
fn fill_sets_every_element() {
    let mut layer = layer_of(&[1u8, 2, 3]);
    layer.fill(9);
    assert_eq!(layer.as_slice(), &[9, 9, 9]);
    assert_eq!(layer.len(), 3);
}

#[test]
fn copy_into_duplicates_the_layer() {
    let source = layer_of(&[1i8, -2, 3]);
    let mut output: Layer<i8> = Layer::new(3);
    source.copy_into(&mut output);
    assert_eq!(output.as_slice(), source.as_slice());
}

#[test]
fn operations_keep_the_length_of_the_output() {
    let source = layer_of(&[1i32, 2, 3]);
    let other = layer_of(&[4i32, 5, 6]);
    let mask = layer_of(&[true, false, true]);
    let mut output: Layer<i32> = Layer::new(3);
    source.add_value(1, &mut output);
    assert_eq!(output.len(), 3);
    source.add_layer(&other, &mut output);
    assert_eq!(output.len(), 3);
    source.sub_layer_by_mask(&other, &mask, &mut output);
    assert_eq!(output.len(), 3);
    source.copy_into_selection(&other, &mask, &mut output);
    assert_eq!(output.len(), 3);
    source.clamp_value_value(2, 2, &mut output);
    assert_eq!(output.len(), 3);
    assert_eq!(output.as_slice(), &[2, 2, 2]);
}

#[test]
fn float_layers_add() {
    let source = layer_of(&[1.0f32, 2.0]);
    let mut output = Layer::new(2);
    source.add_value(0.5f32, &mut output);
    assert_eq!(output[0], 1.5);
    assert_eq!(output[1], 2.5);
}

#[test]
fn layer_writes_as_a_slice() {
    let mut layer = layer_of(&[4u16, 5, 6]);
    layer[1] = 50;
    assert_eq!(layer.as_slice(), &[4, 50, 6]);
    for element in layer.iter_mut() {
        *element += 1;
    }
    assert_eq!(layer.as_slice(), &[5, 51, 7]);
    assert_eq!(layer.len(), 3);
}

#[test]
fn layer_reference_iterates_in_order() {
    let layer = layer_of(&[3i32, 1, 2]);
    let mut seen = Vec::new();
    for element in &layer {
        seen.push(*element);
    }
    assert_eq!(seen, vec![3, 1, 2]);
}
