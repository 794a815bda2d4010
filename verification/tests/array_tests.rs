use ndarray_core::array::{Array, ArrayError};

#[test]
fn should_create_new_array() {
    let array: Array<i64> = Array::new();

    assert_eq!(array.dimensions(), &vec![0]);
    assert_eq!(array.data(), &Vec::<i64>::new());
}

#[test]
fn should_create_array_of() {
    let dimensions = vec![2, 3, 2];
    let data: Vec<i64> = vec![1, 2, 3, 4, 5, 6, 7, 8, 9, 10, 11, 12];

    let array: Array<i64> = Array::of(dimensions, data).unwrap();

    assert_eq!(array.dimensions(), &vec![2, 3, 2]);
    assert_eq!(array.data(), &vec![1, 2, 3, 4, 5, 6, 7, 8, 9, 10, 11, 12]);
}

#[test]
fn should_not_create_array_of_larger_dimensions_than_data() {
    let dimensions = vec![1, 2, 3];
    let data: Vec<i64> = vec![1, 1];

    let result = Array::of(dimensions, data);

    assert_eq!(result.err().unwrap(), ArrayError::ShapeSizeMismatch);
}

#[test]
fn should_not_create_array_of_larger_data_than_dimensions() {
    let dimensions = vec![1, 1];
    let data: Vec<i64> = vec![1, 2];

    let result = Array::of(dimensions, data);

    assert_eq!(result.err().unwrap(), ArrayError::ShapeSizeMismatch);
}

#[test]
fn should_fill_array() {
    let dimensions = vec![1, 2, 3];
    let value: i64 = 11;

    let array: Array<i64> = Array::fill(dimensions, value);

    assert_eq!(array.dimensions(), &vec![1, 2, 3]);
    assert_eq!(array.data(), &vec![11, 11, 11, 11, 11, 11]);
}

#[test]
fn should_get_array_element_by_index() {
    let array_index = vec![0, 2, 1];
    let dimensions = vec![2, 3, 2];
    let data: Vec<i64> = vec![1, 2, 3, 4, 5, 6, 7, 8, 9, 10, 11, 12];
    let array: Array<i64> = Array::of(dimensions, data).unwrap();

    let array_element = array.index(array_index).unwrap();

    assert_eq!(*array_element, 11);
}

#[test]
fn should_not_get_array_element_by_index_when_empty() {
    let array_index = vec![];
    let array: Array<i64> = Array::new();

    let result = array.index(array_index);

    assert_eq!(result.err().unwrap(), ArrayError::EmptyIndex);
}

#[test]
fn should_not_get_array_element_by_index_with_different_dimensions_length() {
    let array_index = vec![0, 0, 0];
    let dimensions = vec![2, 2];
    let data: Vec<i64> = vec![1, 2, 3, 4];
    let array: Array<i64> = Array::of(dimensions, data).unwrap();

    let result = array.index(array_index);

    assert_eq!(
        result.err().unwrap(),
        ArrayError::RankMismatch { expected: 2, actual: 3 }
    );
}

#[test]
fn should_not_get_array_element_by_index_with_invalid_dimension_index() {
    let array_index = vec![0, 999];
    let dimensions = vec![2, 2];
    let data: Vec<i64> = vec![1, 2, 3, 4];
    let array: Array<i64> = Array::of(dimensions, data).unwrap();

    let result = array.index(array_index);

    assert_eq!(
        result.err().unwrap(),
        ArrayError::IndexOutOfBounds { axis: 1, index: 999, bound: 2 }
    );
}

#[test]
fn should_add_arrays() {
    let first_array: Array<i64> = Array::of(vec![2, 2], vec![4, 3, 2, 1]).unwrap();
    let second_array: Array<i64> = Array::of(vec![2, 2], vec![1, 2, 3, 4]).unwrap();

    let result = first_array.add(second_array).unwrap();

    assert_eq!(result.dimensions(), &vec![2, 2]);
    assert_eq!(result.data(), &vec![5, 5, 5, 5]);
}

#[test]
fn should_not_add_arrays_with_different_dimensions() {
    let first_array: Array<i64> = Array::of(vec![2, 2], vec![4, 3, 2, 1]).unwrap();
    let second_array: Array<i64> = Array::of(vec![2, 2, 1], vec![1, 2, 3, 4]).unwrap();

    let result = first_array.add(second_array);

    assert_eq!(result.err().unwrap(), ArrayError::ShapeMismatch);
}

#[test]
fn should_add_assign_arrays() {
    let mut first_array: Array<i64> = Array::of(vec![2, 2], vec![4, 3, 2, 1]).unwrap();
    let second_array: Array<i64> = Array::of(vec![2, 2], vec![1, 2, 3, 4]).unwrap();

    first_array.add_assign(second_array).unwrap();

    assert_eq!(first_array.dimensions(), &vec![2, 2]);
    assert_eq!(first_array.data(), &vec![5, 5, 5, 5])
}

#[test]
fn should_not_add_assign_arrays_with_different_dimensions() {
    let mut first_array: Array<i64> = Array::of(vec![2, 2], vec![4, 3, 2, 1]).unwrap();
    let second_array: Array<i64> = Array::of(vec![2, 2, 1], vec![1, 2, 3, 4]).unwrap();

    let result = first_array.add_assign(second_array);

    assert_eq!(result.err().unwrap(), ArrayError::ShapeMismatch);
    assert_eq!(first_array.dimensions(), &vec![2, 2]);
    assert_eq!(first_array.data(), &vec![4, 3, 2, 1]);
}

#[test]
fn should_subtract_arrays() {
    let first_array: Array<i64> = Array::of(vec![2, 2], vec![1, 2, 3, 4]).unwrap();
    let second_array: Array<i64> = Array::of(vec![2, 2], vec![1, 2, 3, 4]).unwrap();

    let result = first_array.sub(second_array).unwrap();

    assert_eq!(result.dimensions(), &vec![2, 2]);
    assert_eq!(result.data(), &vec![0, 0, 0, 0]);
}

#[test]
fn should_not_subtract_arrays_with_different_dimensions() {
    let first_array: Array<i64> = Array::of(vec![2, 2], vec![1, 2, 3, 4]).unwrap();
    let second_array: Array<i64> = Array::of(vec![2, 2, 1], vec![1, 2, 3, 4]).unwrap();

    let result = first_array.sub(second_array);

    assert_eq!(result.err().unwrap(), ArrayError::ShapeMismatch);
}

#[test]
fn should_subtract_assign_arrays() {
    let mut first_array: Array<i64> = Array::of(vec![2, 2], vec![1, 2, 3, 4]).unwrap();
    let second_array: Array<i64> = Array::of(vec![2, 2], vec![1, 2, 3, 4]).unwrap();

    first_array.sub_assign(second_array).unwrap();

    assert_eq!(first_array.dimensions(), &vec![2, 2]);
    assert_eq!(first_array.data(), &vec![0, 0, 0, 0]);
}

#[test]
fn should_not_subtract_assign_arrays_with_different_dimensions() {
    let mut first_array: Array<i64> = Array::of(vec![2, 2], vec![1, 2, 3, 4]).unwrap();
    let second_array: Array<i64> = Array::of(vec![2, 2, 1], vec![1, 2, 3, 4]).unwrap();

    let result = first_array.sub_assign(second_array);

    assert_eq!(result.err().unwrap(), ArrayError::ShapeMismatch);
    assert_eq!(first_array.data(), &vec![1, 2, 3, 4]);
}

#[test]
fn should_multiply_arrays() {
    let first_array: Array<i64> = Array::of(vec![2, 2], vec![1, 2, 3, 4]).unwrap();
    let second_array: Array<i64> = Array::of(vec![2, 2], vec![1, 2, 3, 4]).unwrap();

    let result = first_array.mul(second_array).unwrap();

    assert_eq!(result.dimensions(), &vec![2, 2]);
    assert_eq!(result.data(), &vec![1, 4, 9, 16]);
}

#[test]
fn should_not_multiply_arrays_with_different_dimensions() {
    let first_array: Array<i64> = Array::of(vec![2, 2], vec![1, 2, 3, 4]).unwrap();
    let second_array: Array<i64> = Array::of(vec![2, 2, 1], vec![1, 2, 3, 4]).unwrap();

    let result = first_array.mul(second_array);

    assert_eq!(result.err().unwrap(), ArrayError::ShapeMismatch);
}

#[test]
fn should_multiply_assign_arrays() {
    let mut first_array: Array<i64> = Array::of(vec![2, 2], vec![1, 2, 3, 4]).unwrap();
    let second_array: Array<i64> = Array::of(vec![2, 2], vec![1, 2, 3, 4]).unwrap();

    first_array.mul_assign(second_array).unwrap();

    assert_eq!(first_array.dimensions(), &vec![2, 2]);
    assert_eq!(first_array.data(), &vec![1, 4, 9, 16]);
}

#[test]
fn should_not_multiply_assign_arrays_with_different_dimensions() {
    let mut first_array: Array<i64> = Array::of(vec![2, 2], vec![1, 2, 3, 4]).unwrap();
    let second_array: Array<i64> = Array::of(vec![2, 2, 1], vec![1, 2, 3, 4]).unwrap();

    let result = first_array.mul_assign(second_array);

    assert_eq!(result.err().unwrap(), ArrayError::ShapeMismatch);
    assert_eq!(first_array.data(), &vec![1, 2, 3, 4]);
}

#[test]
fn should_divide_arrays() {
    let first_array: Array<i64> = Array::of(vec![2, 2], vec![1, 2, 3, 4]).unwrap();
    let second_array: Array<i64> = Array::of(vec![2, 2], vec![1, 2, 3, 4]).unwrap();

    let result = first_array.div(second_array).unwrap();

    assert_eq!(result.dimensions(), &vec![2, 2]);
    assert_eq!(result.data(), &vec![1, 1, 1, 1]);
}

#[test]
fn should_not_divide_arrays_with_different_dimensions() {
    let first_array: Array<i64> = Array::of(vec![2, 2], vec![1, 2, 3, 4]).unwrap();
    let second_array: Array<i64> = Array::of(vec![2, 2, 1], vec![1, 2, 3, 4]).unwrap();

    let result = first_array.div(second_array);

    assert_eq!(result.err().unwrap(), ArrayError::ShapeMismatch);
}

#[test]
fn should_divide_assign_arrays() {
    let mut first_array: Array<i64> = Array::of(vec![2, 2], vec![8, 6, 4, 2]).unwrap();
    let second_array: Array<i64> = Array::of(vec![2, 2], vec![2, 2, 2, 2]).unwrap();

    first_array.div_assign(second_array).unwrap();

    assert_eq!(first_array.dimensions(), &vec![2, 2]);
    assert_eq!(first_array.data(), &vec![4, 3, 2, 1]);
}

#[test]
fn should_truncate_signed_quotients() {
    let first_array: Array<i64> = Array::of(vec![2, 2], vec![-7, 7, -7, 7]).unwrap();
    let second_array: Array<i64> = Array::of(vec![2, 2], vec![2, -2, -2, 2]).unwrap();

    let result = first_array.div(second_array).unwrap();

    assert_eq!(result.data(), &vec![-3, -3, 3, 3]);
}

#[test]
fn should_reject_same_size_different_shape() {
    let first_array: Array<i64> = Array::of(vec![2, 2], vec![1, 2, 3, 4]).unwrap();
    let second_array: Array<i64> = Array::of(vec![4, 1], vec![1, 2, 3, 4]).unwrap();

    let mut receiver = first_array;
    let result = receiver.add_assign(second_array);

    assert_eq!(result.err().unwrap(), ArrayError::ShapeMismatch);
    assert_eq!(receiver.dimensions(), &vec![2, 2]);
    assert_eq!(receiver.data(), &vec![1, 2, 3, 4]);
}

#[test]
fn should_fill_zero_sized_shape() {
    let array: Array<i64> = Array::fill(vec![2, 0, 3], 7);

    assert_eq!(array.dimensions(), &vec![2, 0, 3]);
    assert_eq!(array.data(), &Vec::<i64>::new());
}

#[test]
fn should_report_first_out_of_bounds_axis() {
    let array: Array<i64> = Array::of(vec![2, 0, 3], vec![]).unwrap();

    let result = array.index(vec![1, 0, 0]);

    assert_eq!(
        result.err().unwrap(),
        ArrayError::IndexOutOfBounds { axis: 1, index: 0, bound: 0 }
    );
}

#[test]
fn should_commute_add_and_multiply() {
    let a: Array<i64> = Array::of(vec![2, 2], vec![1, -2, 3, -4]).unwrap();
    let b: Array<i64> = Array::of(vec![2, 2], vec![5, 6, -7, -8]).unwrap();

    let ab = a.clone().add(b.clone()).unwrap();
    let ba = b.clone().add(a.clone()).unwrap();
    assert_eq!(ab.data(), ba.data());

    let ab = a.clone().mul(b.clone()).unwrap();
    let ba = b.mul(a).unwrap();
    assert_eq!(ab.data(), ba.data());
}

#[test]
fn should_show_subtract_asymmetry() {
    let a: Array<i64> = Array::of(vec![2, 2], vec![1, 2, 3, 4]).unwrap();
    let b: Array<i64> = Array::of(vec![2, 2], vec![4, 3, 2, 1]).unwrap();

    let ab = a.clone().sub(b.clone()).unwrap();
    let ba = b.sub(a).unwrap();

    assert_eq!(ab.data(), &vec![-3, -1, 1, 3]);
    assert_eq!(ba.data(), &vec![3, 1, -1, -3]);
    assert_ne!(ab.data(), ba.data());
}

#[test]
fn should_show_divide_asymmetry() {
    let a: Array<i64> = Array::of(vec![2, 2], vec![1, 2, 3, 4]).unwrap();
    let b: Array<i64> = Array::of(vec![2, 2], vec![2, 2, 2, 2]).unwrap();

    let ab = a.clone().div(b.clone()).unwrap();
    let ba = b.div(a).unwrap();

    assert_eq!(ab.data(), &vec![0, 1, 1, 2]);
    assert_eq!(ba.data(), &vec![2, 1, 0, 0]);
    assert_ne!(ab.data(), ba.data());
}

#[test]
fn should_match_value_and_in_place_results() {
    let a: Array<i64> = Array::of(vec![2, 2], vec![9, -8, 7, -6]).unwrap();
    let b: Array<i64> = Array::of(vec![2, 2], vec![1, 2, 3, 4]).unwrap();

    let value_result = a.clone().mul(b.clone()).unwrap();
    let mut receiver = a;
    receiver.mul_assign(b).unwrap();

    assert_eq!(value_result.dimensions(), receiver.dimensions());
    assert_eq!(value_result.data(), receiver.data());
}
