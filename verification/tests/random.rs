use whitenoise_validator::errors::Error;
use whitenoise_validator::float::Float;
use whitenoise_validator::runtime::random::{
    bytes_to_binary, get_bytes, sample_from_set, sampling_indices, uniform_integer,
};

fn float(value: f64) -> Float {
    Float::from_bits(value.to_bits())
}

fn floats(values: &[f64]) -> Vec<Float> {
    values.iter().map(|v| float(*v)).collect()
}

#[test]
fn bytes_are_written_in_eight_digits_each() {
    assert_eq!(bytes_to_binary(&vec![]).unwrap(), "");
    assert_eq!(bytes_to_binary(&vec![0]).unwrap(), "00000000");
    assert_eq!(bytes_to_binary(&vec![1]).unwrap(), "00000001");
    assert_eq!(bytes_to_binary(&vec![128]).unwrap(), "10000000");
    assert_eq!(bytes_to_binary(&vec![165, 255, 2]).unwrap(), "101001011111111100000010");
}

#[test]
fn random_bytes_come_as_binary_digits() {
    assert_eq!(get_bytes(0).unwrap(), "");
    for count in [1usize, 2, 8, 33] {
        let text = get_bytes(count).unwrap();
        assert_eq!(text.len(), 8 * count);
        assert!(text.chars().all(|c| c == '0' || c == '1'));
    }
}

#[test]
fn random_bytes_differ_from_call_to_call() {
    let first = get_bytes(32).unwrap();
    let second = get_bytes(32).unwrap();
    assert_ne!(first, second);
    assert_ne!(first, "0".repeat(256));
}

#[test]
fn too_many_random_bytes_are_refused() {
    if usize::MAX > 2147483647 {
        assert_eq!(get_bytes(2147483648), Err(Error::Shape));
    }
}

#[test]
fn the_draw_selects_the_first_item_that_reaches_it() {
    let set = vec![10i64, 20, 30];
    let cumulative = floats(&[0.25, 0.5, 1.0]);
    assert_eq!(sample_from_set(&set, &cumulative, float(0.0)), Ok(10));
    assert_eq!(sample_from_set(&set, &cumulative, float(0.25)), Ok(10));
    assert_eq!(sample_from_set(&set, &cumulative, float(0.3)), Ok(20));
    assert_eq!(sample_from_set(&set, &cumulative, float(0.5)), Ok(20));
    assert_eq!(sample_from_set(&set, &cumulative, float(0.75)), Ok(30));
    assert_eq!(sample_from_set(&set, &cumulative, float(1.0)), Ok(30));
}

#[test]
fn a_draw_that_nothing_reaches_selects_the_first_item() {
    let set = vec![10i64, 20, 30];
    let cumulative = floats(&[0.25, 0.5, 0.9]);
    assert_eq!(sample_from_set(&set, &cumulative, float(0.95)), Ok(10));
    assert_eq!(sample_from_set(&set, &cumulative, float(f64::NAN)), Ok(10));
    assert_eq!(sample_from_set(&set, &vec![], float(0.5)), Ok(10));
}

#[test]
fn a_set_without_the_selected_place_is_refused() {
    let cumulative = floats(&[0.25, 0.5, 1.0]);
    assert_eq!(sample_from_set(&vec![10i64], &cumulative, float(0.75)), Err(Error::Shape));
    assert_eq!(sample_from_set(&Vec::<i64>::new(), &cumulative, float(0.1)), Err(Error::Shape));
    assert_eq!(
        sample_from_set(&vec!["a".to_string(), "b".to_string()], &cumulative, float(0.4)),
        Ok("b".to_string())
    );
}

#[test]
fn a_draw_selects_an_integer_of_the_range() {
    assert_eq!(uniform_integer(0, 3, 7), Some(3));
    assert_eq!(uniform_integer(4, 3, 7), Some(7));
    assert_eq!(uniform_integer(5, 3, 7), Some(3));
    assert_eq!(uniform_integer(12, -2, 2), Some(0));
    assert_eq!(uniform_integer(u64::MAX, 0, 0), Some(0));
    assert_eq!(uniform_integer(u64::MAX, i64::MIN, i64::MAX), Some(i64::MAX));
    assert_eq!(uniform_integer(1 << 63, i64::MIN, i64::MAX), Some(0));
    assert_eq!(uniform_integer(0, i64::MIN, i64::MAX), Some(i64::MIN));
    assert_eq!(uniform_integer(7, i64::MAX - 1, i64::MAX), Some(i64::MAX));
}

#[test]
fn a_draw_in_the_last_incomplete_run_selects_nothing() {
    // 2^64 = 3 * 6148914691236517205 + 1: the last draw is left over.
    assert_eq!(uniform_integer(u64::MAX, 0, 2), None);
    assert_eq!(uniform_integer(u64::MAX - 1, 0, 2), Some(2));
    // With 2^63 + 1 integers only one run is complete.
    assert_eq!(uniform_integer(1 << 63, 0, i64::MAX), Some(0));
    assert_eq!(uniform_integer((1 << 63) + 1, 0, i64::MAX), Some(1));
    assert_eq!(uniform_integer((1 << 63) + 1, -1, i64::MAX), None);
    assert_eq!(uniform_integer(1 << 63, -1, i64::MAX), Some(i64::MAX));
}

#[test]
fn indices_change_places_as_the_draws_say() {
    assert_eq!(sampling_indices(0, 5, &vec![]), Some(vec![]));
    assert_eq!(sampling_indices(3, 5, &vec![0, 1, 2]), Some(vec![0, 1, 2]));
    assert_eq!(sampling_indices(3, 5, &vec![4, 4, 4]), Some(vec![4, 0, 1]));
    assert_eq!(sampling_indices(2, 3, &vec![2, 2, 9]), Some(vec![2, 0]));
    assert_eq!(sampling_indices(5, 5, &vec![1, 2, 3, 4, 4]), Some(vec![1, 2, 3, 4, 0]));
    let indices = sampling_indices(4, 6, &vec![3, 3, 5, 3]).unwrap();
    let mut sorted = indices.clone();
    sorted.sort();
    sorted.dedup();
    assert_eq!(sorted.len(), 4);
    assert!(indices.iter().all(|index| *index < 6));
}

#[test]
fn draws_that_do_not_fit_are_refused() {
    assert_eq!(sampling_indices(3, 2, &vec![0, 1, 1]), None);
    assert_eq!(sampling_indices(2, 5, &vec![0]), None);
    assert_eq!(sampling_indices(2, 5, &vec![0, 0]), None);
    assert_eq!(sampling_indices(2, 5, &vec![5, 1]), None);
    assert_eq!(sampling_indices(1, 0, &vec![0]), None);
}
