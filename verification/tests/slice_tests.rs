use field_layers::layer::layer_bounded::LayerBounded as MinMaxElement;
use field_layers::layer_bounded::LayerBounded;
use field_layers::layer_clone::LayerClone;
use field_layers::layer_copy::LayerCopy;
use field_layers::layer_swizzle::LayerSwizzle;

#[test]
fn slice_swizzle_gathers_by_mapping() {
    let from = [8, 0, 4, 8, 1];
    let mut target = [0; 4];
    target.swizzle(&[4, 2, 0, 3], &from);
    assert_eq!(target, [1, 4, 8, 8]);
}

#[test]
fn slice_swizzle_leaves_the_tail() {
    let from = [5u8, 6];
    let mut target = [9u8; 3];
    target.swizzle(&[1], &from);
    assert_eq!(target, [6, 9, 9]);
}

#[test]
fn copy_from_slice_by_mapping_gathers_by_mapping() {
    let from = [8, 1, 4, 8, 9];
    let mut target = [0; 4];
    target.copy_from_slice_by_mapping(&[1, 2, 0, 3], &from);
    assert_eq!(target, [1, 4, 8, 8]);
}

#[test]
fn clone_from_slice_by_mapping_clones_by_mapping() {
    let from = [String::from("a"), String::from("b"), String::from("c")];
    let mut target = [String::new(), String::new()];
    target.clone_from_slice_by_mapping(&[2, 0], &from);
    assert_eq!(target, [String::from("c"), String::from("a")]);
    assert_eq!(from[2], "c");
}

#[test]
fn slice_indices_of_the_extremes() {
    let values = [3u8, 1, 2, 1, 3];
    assert_eq!(values.min_index(), 1);
    assert_eq!(values.max_index(), 0);
    let empty: [u8; 0] = [];
    assert_eq!(empty.min_index(), 0);
    assert_eq!(empty.max_index(), 0);
}

#[test]
fn slice_elements_at_the_extremes() {
    let values = [3i32, -1, 2];
    assert_eq!(*values.min_element(), -1);
    assert_eq!(*values.max_element(), 3);
}

#[test]
fn slice_min_max_element_finds_both_in_one_scan() {
    let values = [3i64, -1, 2, 7, -1];
    assert_eq!(values.min_max_element(), (&-1, &7));
    let single = [4u16];
    assert_eq!(single.min_max_element(), (&4, &4));
}

#[test]
fn slice_min_max_element_of_elements_that_equal_a_sentinel() {
    let zeros = [0u8, 0];
    assert_eq!(zeros.min_max_element(), (&0, &0));
    let top = [255u8];
    assert_eq!(top.min_max_element(), (&255, &255));
    let both = [255u8, 0, 255, 0];
    assert_eq!(both.min_max_element(), (&0, &255));
}
