use pointer_horror::arrays::{index_or_fault, range_slice, safe_get, sum, IndexFault};
use pointer_horror::ownership::{bad_get, find_value};

#[test]
fn slice_keeps_its_length() {
    let data = [1i32, 2, 3, 4, 5, 6, 7, 8, 9, 10];
    assert_eq!(range_slice(&data, 0, 10).len(), 10);
    let partial = range_slice(&data, 2, 5);
    assert_eq!(partial.len(), 3);
    assert_eq!(partial, &[3, 4, 5]);
    assert_eq!(range_slice(&data, 4, 4).len(), 0);
}

#[test]
fn index_in_bounds_gives_the_element() {
    let arr = [10i32, 20, 30];
    assert_eq!(index_or_fault(&arr, 0), Ok(10));
    assert_eq!(index_or_fault(&arr, 2), Ok(30));
}

#[test]
fn index_past_the_end_reports_length_and_index() {
    let arr = [10i32, 20, 30];
    assert_eq!(index_or_fault(&arr, 5), Err(IndexFault { len: 3, index: 5 }));
    assert_eq!(index_or_fault(&arr, 3), Err(IndexFault { len: 3, index: 3 }));
    assert_eq!(index_or_fault(&[], 0), Err(IndexFault { len: 0, index: 0 }));
}

#[test]
fn get_returns_option() {
    let arr = [10i32, 20, 30];
    let got: Vec<Option<i32>> = [0usize, 1, 2, 5, 99].iter().map(|&i| safe_get(&arr, i)).collect();
    assert_eq!(got, vec![Some(10), Some(20), Some(30), None, None]);
}

#[test]
fn sum_of_slices() {
    let data = [1i32, 2, 3, 4, 5];
    assert_eq!(sum(&data), 15);
    assert_eq!(sum(range_slice(&data, 0, 3)), 6);
    assert_eq!(sum(range_slice(&data, 1, 5)), 14);
    assert_eq!(sum(&[]), 0);
    assert_eq!(sum(&[i32::MAX, -1, 1]), i32::MAX);
}

#[test]
fn sum_splits_at_any_point() {
    let data = [7i32, -3, 12, 0, 5, -9];
    for k in 0..=data.len() {
        assert_eq!(sum(&data), sum(range_slice(&data, 0, k)) + sum(range_slice(&data, k, data.len())));
    }
}

#[test]
fn find_value_present_and_absent() {
    let arr = [1i32, 2, 3, 4, 5];
    assert_eq!(find_value(&arr, 3), Some(3));
    assert_eq!(find_value(&arr, 99), None);
    assert_eq!(find_value(&arr, 3).unwrap_or(0), 3);
    assert_eq!(find_value(&arr, 99).unwrap_or(0), 0);
    assert_eq!(find_value(&[], 1), None);
    assert_eq!(find_value(&[4, 4, -2], -2), Some(-2));
}

#[test]
fn owned_value_is_returned() {
    assert_eq!(bad_get(), 42);
}
