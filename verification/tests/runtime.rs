use whitenoise_validator::array::NdArray;
use whitenoise_validator::base::{Arguments, Array, Jagged, Value};
use whitenoise_validator::errors::{Argument, Error};
use whitenoise_validator::float::Float;
use whitenoise_validator::proto::{Clamp, Count};
use whitenoise_validator::runtime::binary::{
    binary_to_f64, combine_components_into_ieee, f64_to_binary, split_ieee_into_components,
};
use whitenoise_validator::runtime::clamp::{
    clamp_categorical, clamp_numeric_float, clamp_numeric_integer,
};
use whitenoise_validator::runtime::count::{count, count_distinct};
use whitenoise_validator::runtime::utilities::{
    broadcast_map, get_num_columns, map_by_column, standardize_numeric_argument, to_nd,
};
use whitenoise_validator::runtime::Evaluable;

fn float(value: f64) -> Float {
    Float::from_bits(value.to_bits())
}

fn number(value: Float) -> f64 {
    f64::from_bits(value.to_bits())
}

fn arr0(value: f64) -> NdArray<Float> {
    NdArray::scalar(float(value))
}

fn arr1(values: &[f64]) -> NdArray<Float> {
    NdArray::vector(values.iter().map(|v| float(*v)).collect())
}

fn arr2(rows: &[&[f64]]) -> NdArray<Float> {
    let columns = rows.first().map(|row| row.len()).unwrap_or(0);
    NdArray::new(
        vec![rows.len(), columns],
        rows.iter().flat_map(|row| row.iter().map(|v| float(*v))).collect(),
    )
    .unwrap()
}

fn words(values: &[&str]) -> Vec<String> {
    values.iter().map(|v| v.to_string()).collect()
}

#[test]
fn test_broadcasting() {
    let data0d = arr0(2.);
    let data1d = arr1(&[2., 3., 5.]);
    let data2d = arr2(&[&[2., 4.], &[3., 7.], &[5., 2.]]);

    assert!(
        broadcast_map(&data0d, &data1d, &|l: &Float, r: &Float| float(number(*l) * number(*r)))
            .unwrap()
            == arr1(&[4., 6., 10.])
    );

    assert!(
        broadcast_map(&data1d, &data2d, &|l: &Float, r: &Float| float(number(*l) / number(*r)))
            .unwrap()
            == arr2(&[&[1., 2. / 4.], &[1., 3. / 7.], &[1., 5. / 2.]])
    );

    assert!(
        broadcast_map(&data2d, &data0d, &|l: &Float, r: &Float| float(number(*l) + number(*r)))
            .unwrap()
            == arr2(&[&[4., 6.], &[5., 9.], &[7., 4.]])
    );
}

#[test]
fn non_conformable() {
    let left = arr1(&[2., 3., 5.]);
    let right = arr1(&[2., 3., 5., 6.]);

    assert!(
        broadcast_map(&left, &right, &|l: &Float, r: &Float| float(number(*l) * number(*r)))
            .is_err()
    );
}

#[test]
fn broadcasting_follows_the_larger_shape() {
    let row = NdArray::new(vec![1, 3], vec![1i64, 2, 3]).unwrap();
    let column = NdArray::new(vec![2, 1], vec![10i64, 20]).unwrap();
    let sum = |l: &i64, r: &i64| l + r;
    assert_eq!(broadcast_map(&row, &column, &sum), Err(Error::Shape));
    let matrix = NdArray::new(vec![2, 3], vec![0i64; 6]).unwrap();
    assert_eq!(
        broadcast_map(&matrix, &row, &sum),
        Ok(NdArray::new(vec![2, 3], vec![1, 2, 3, 1, 2, 3]).unwrap())
    );
    assert_eq!(
        broadcast_map(&column, &matrix, &sum),
        Ok(NdArray::new(vec![2, 3], vec![10, 10, 10, 20, 20, 20]).unwrap())
    );
    let texts = broadcast_map(
        &NdArray::vector(vec![1i64, 2]),
        &NdArray::scalar(5i64),
        &|l: &i64, r: &i64| format!("{}-{}", l, r),
    );
    assert_eq!(texts, Ok(NdArray::vector(words(&["1-5", "2-5"]))));
    let empty = NdArray::vector(Vec::<i64>::new());
    assert_eq!(broadcast_map(&empty, &NdArray::scalar(1), &sum), Ok(NdArray::vector(vec![])));
}

#[test]
fn axes_of_length_one_come_and_go() {
    let vector = NdArray::vector(vec![1i64, 2, 3]);
    assert_eq!(to_nd(vector.duplicate(), &1), Ok(NdArray::vector(vec![1, 2, 3])));
    assert_eq!(
        to_nd(vector.duplicate(), &2),
        Ok(NdArray::new(vec![3, 1], vec![1, 2, 3]).unwrap())
    );
    assert_eq!(to_nd(vector.duplicate(), &0), Err(Error::Shape));
    assert_eq!(to_nd(vector.duplicate(), &3), Err(Error::Shape));
    assert_eq!(to_nd(NdArray::scalar(7i64), &2), Ok(NdArray::new(vec![1, 1], vec![7]).unwrap()));
    assert_eq!(
        to_nd(NdArray::new(vec![1, 1], vec![7i64]).unwrap(), &0),
        Ok(NdArray::scalar(7))
    );
    assert_eq!(
        to_nd(NdArray::new(vec![3, 1], vec![1i64, 2, 3]).unwrap(), &1),
        Ok(NdArray::vector(vec![1, 2, 3]))
    );
    assert_eq!(to_nd(NdArray::row(vec![1i64, 2, 3]), &1), Err(Error::Shape));
}

#[test]
fn columns_are_counted() {
    assert_eq!(get_num_columns(&NdArray::scalar(1i64)), Err(Error::Shape));
    assert_eq!(get_num_columns(&NdArray::vector(vec![1i64, 2])), Ok(1));
    assert_eq!(get_num_columns(&NdArray::new(vec![2, 3], vec![0i64; 6]).unwrap()), Ok(3));
    assert_eq!(get_num_columns(&NdArray::new(vec![0, 3], Vec::<i64>::new()).unwrap()), Ok(3));
}

#[test]
fn numeric_argument_is_standardized_to_the_columns() {
    assert_eq!(standardize_numeric_argument(&NdArray::scalar(5i64), 3), Ok(vec![5, 5, 5]));
    assert_eq!(standardize_numeric_argument(&NdArray::vector(vec![1i64, 2]), 2), Ok(vec![1, 2]));
    assert_eq!(standardize_numeric_argument(&NdArray::vector(vec![1i64, 2]), 3), Err(Error::Shape));
    assert_eq!(standardize_numeric_argument(&NdArray::row(vec![1i64, 2]), 2), Err(Error::Shape));
    assert_eq!(standardize_numeric_argument(&NdArray::vector(vec![9i64]), 1), Ok(vec![9]));
}

#[test]
fn items_are_mapped_with_their_column() {
    let matrix = NdArray::new(vec![2, 3], vec![1i64, 2, 3, 4, 5, 6]).unwrap();
    assert_eq!(
        map_by_column(&matrix, &|item: &i64, column: usize| item * 10 + column as i64),
        NdArray::new(vec![2, 3], vec![10, 21, 32, 40, 51, 62]).unwrap()
    );
}

#[test]
fn floats_are_clamped_by_column() {
    let data = arr2(&[&[1., 2., 3.], &[7., 11., 9.]]);
    let clamped =
        clamp_numeric_float(data, arr1(&[0.5, 8., 4.]), arr1(&[2.5, 10., 12.])).unwrap();
    assert_eq!(clamped, arr2(&[&[1., 8., 4.], &[2.5, 10., 9.]]));
    let clamped = clamp_numeric_float(arr1(&[-5., 0.5, 99.]), arr0(0.), arr0(1.)).unwrap();
    assert_eq!(clamped, arr1(&[0., 0.5, 1.]));
}

#[test]
fn nulls_are_not_clamped() {
    let clamped = clamp_numeric_float(arr1(&[f64::NAN, 5.]), arr0(0.), arr0(1.)).unwrap();
    assert!(number(clamped.items()[0]).is_nan());
    assert_eq!(number(clamped.items()[1]), 1.);
}

#[test]
fn integers_are_clamped_by_column() {
    let data = NdArray::new(vec![2, 3], vec![1i64, 2, 3, 7, 11, 9]).unwrap();
    let clamped = clamp_numeric_integer(
        data,
        NdArray::vector(vec![0, 8, 4]),
        NdArray::vector(vec![2, 10, 12]),
    )
    .unwrap();
    assert_eq!(clamped, NdArray::new(vec![2, 3], vec![1, 8, 4, 2, 10, 9]).unwrap());
}

#[test]
fn clamping_needs_fitting_bounds() {
    let data = || NdArray::new(vec![2, 2], vec![1i64, 2, 3, 4]).unwrap();
    assert_eq!(
        clamp_numeric_integer(data(), NdArray::vector(vec![0, 0, 0]), NdArray::scalar(9)),
        Err(Error::Shape)
    );
    assert_eq!(
        clamp_numeric_integer(NdArray::scalar(1), NdArray::scalar(0), NdArray::scalar(9)),
        Err(Error::Shape)
    );
    assert_eq!(
        clamp_numeric_integer(data(), NdArray::scalar(0), NdArray::row(vec![9, 9])),
        Err(Error::Shape)
    );
}

#[test]
fn values_are_clamped_to_categories() {
    let data = NdArray::new(vec![2, 3], words(&["a", "b", "3", "a", "2", "b"])).unwrap();
    let categories = vec![words(&["a", "b"]), words(&["a", "b"]), words(&["a", "b"])];
    let null_value = NdArray::vector(words(&["not_a_letter", "not_a_letter", "not_a_letter"]));
    let clamped = clamp_categorical(data, categories, null_value).unwrap();
    assert_eq!(
        clamped,
        NdArray::new(
            vec![2, 3],
            words(&["a", "b", "not_a_letter", "a", "not_a_letter", "b"])
        )
        .unwrap()
    );
    let clamped = clamp_categorical(
        NdArray::new(vec![2, 2], vec![1i64, 2, 3, 4]).unwrap(),
        vec![vec![1, 4]],
        NdArray::scalar(-1),
    )
    .unwrap();
    assert_eq!(clamped, NdArray::new(vec![2, 2], vec![1, -1, -1, 4]).unwrap());
    assert_eq!(
        clamp_categorical(NdArray::vector(vec![1i64]), vec![], NdArray::scalar(-1)),
        Err(Error::CategoriesEmpty)
    );
    assert_eq!(
        clamp_categorical(
            NdArray::vector(vec![1i64]),
            vec![vec![1]],
            NdArray::vector(Vec::<i64>::new())
        ),
        Err(Error::NullEmpty)
    );
}

#[test]
fn clamp_is_evaluated_by_the_types_of_its_arguments() {
    let mut arguments = Arguments::new();
    arguments.insert("data", Value::from(arr1(&[-1., 0.5, 3.])));
    arguments.insert("lower", Value::from(arr0(0.)));
    arguments.insert("upper", Value::from(arr0(1.)));
    let node = Clamp {}.evaluate(&None, &arguments).unwrap();
    assert_eq!(node.value, Value::from(arr1(&[0., 0.5, 1.])));
    assert!(!node.public);
    arguments.insert("upper", Value::from(1i64));
    assert_eq!(Clamp {}.evaluate(&None, &arguments), Err(Error::ClampNotNumeric));
    let mut categorical = Arguments::new();
    categorical.insert("data", Value::from(NdArray::vector(vec![true, false])));
    categorical.insert("categories", Value::Jagged(Jagged::Bool(vec![Some(vec![true])])));
    assert_eq!(
        Clamp {}.evaluate(&None, &categorical),
        Err(Error::Missing(Argument::NullValue))
    );
    categorical.insert("null_value", Value::from(true));
    assert_eq!(
        Clamp {}.evaluate(&None, &categorical).unwrap().value,
        Value::from(NdArray::vector(vec![true, true]))
    );
    categorical.insert("categories", Value::Jagged(Jagged::Bool(vec![None])));
    assert_eq!(Clamp {}.evaluate(&None, &categorical), Err(Error::CategoriesUndefined));
    categorical.insert("categories", Value::Jagged(Jagged::I64(vec![Some(vec![1])])));
    assert_eq!(Clamp {}.evaluate(&None, &categorical), Err(Error::NullValueType));
    let mut floats = Arguments::new();
    floats.insert("data", Value::from(arr1(&[1.])));
    floats.insert("categories", Value::Jagged(Jagged::F64(vec![Some(vec![float(1.)])])));
    floats.insert("null_value", Value::from(arr0(0.)));
    assert_eq!(Clamp {}.evaluate(&None, &floats), Err(Error::FloatCategorical));
    assert_eq!(
        Clamp {}.evaluate(&None, &Arguments::new()),
        Err(Error::Missing(Argument::Data))
    );
}

#[test]
fn records_and_distinct_values_are_counted() {
    let data = NdArray::new(vec![2, 3], vec![false, false, true, true, true, true]).unwrap();
    assert_eq!(count(&data), Ok(NdArray::scalar(2)));
    let data = NdArray::new(vec![2, 3], vec![false, false, true, true, false, true]).unwrap();
    assert_eq!(count_distinct(&data), Ok(NdArray::row(vec![2, 1, 1])));
    assert_eq!(count_distinct(&NdArray::vector(vec![3i64, 1, 3, 3, 2])), Ok(NdArray::scalar(3)));
    assert_eq!(count_distinct(&NdArray::vector(Vec::<i64>::new())), Ok(NdArray::scalar(0)));
    assert_eq!(count_distinct(&arr1(&[0., -0., 1., 1.])), Ok(NdArray::scalar(2)));
    assert_eq!(count_distinct(&NdArray::scalar(1i64)), Err(Error::Shape));
    assert_eq!(count(&NdArray::scalar(1i64)), Err(Error::Shape));
    assert_eq!(count(&NdArray::vector(words(&["a", "b", "c"]))), Ok(NdArray::scalar(3)));
}

#[test]
fn count_is_evaluated_on_arrays() {
    let mut arguments = Arguments::new();
    assert_eq!(
        Count { distinct: false }.evaluate(&None, &arguments),
        Err(Error::Missing(Argument::Data))
    );
    arguments.insert("data", Value::from(NdArray::vector(words(&["a", "b", "a"]))));
    assert_eq!(
        Count { distinct: false }.evaluate(&None, &arguments).unwrap().value,
        Value::from(3i64)
    );
    assert_eq!(
        Count { distinct: true }.evaluate(&None, &arguments).unwrap().value,
        Value::from(2i64)
    );
    arguments.insert("data", Value::Jagged(Jagged::I64(vec![])));
    assert_eq!(Count { distinct: true }.evaluate(&None, &arguments), Err(Error::ValueNotArray));
    let _ = Array::I64(NdArray::scalar(1));
}

#[test]
fn floats_are_written_in_binary_digits() {
    assert_eq!(
        f64_to_binary(&float(1.)),
        "0011111111110000000000000000000000000000000000000000000000000000"
    );
    assert_eq!(
        f64_to_binary(&float(-2.5)),
        "1100000000000100000000000000000000000000000000000000000000000000"
    );
    assert_eq!(f64_to_binary(&float(0.)), "0".repeat(64));
    assert_eq!(f64_to_binary(&Float::from_bits(u64::MAX)), "1".repeat(64));
    for value in [0., -0., 1., -1., 0.1, 1e300, -5e-324, f64::INFINITY, f64::MAX] {
        let text = f64_to_binary(&float(value));
        assert_eq!(text.len(), 64);
        assert_eq!(binary_to_f64(&text), Some(float(value)));
    }
    assert_eq!(binary_to_f64(&"0".repeat(63)), None);
    assert_eq!(binary_to_f64(&"0".repeat(65)), None);
    assert_eq!(binary_to_f64(&format!("{}2", "0".repeat(63))), None);
    assert_eq!(binary_to_f64(&String::new()), None);
}

#[test]
fn binary_digits_are_split_and_combined() {
    let text = f64_to_binary(&float(-2.5));
    let (sign, exponent, mantissa) = split_ieee_into_components(&text).unwrap();
    assert_eq!(sign, "1");
    assert_eq!(exponent, "10000000000");
    assert_eq!(mantissa, format!("01{}", "0".repeat(50)));
    assert_eq!(combine_components_into_ieee(&sign, &exponent, &mantissa), text);
    assert_eq!(split_ieee_into_components(&"01010101010".to_string()), None);
    assert_eq!(
        split_ieee_into_components(&"010101010101".to_string()),
        Some(("0".to_string(), "10101010101".to_string(), String::new()))
    );
}
