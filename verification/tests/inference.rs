use whitenoise_validator::array::NdArray;
use whitenoise_validator::base::{Array, DataType, Hashmap, Jagged, Value, ValueProperties};
use whitenoise_validator::errors::Bound;
use whitenoise_validator::float::Float;
use whitenoise_validator::inference::{infer_array, infer_property};

fn float(value: f64) -> Float {
    Float::from_bits(value.to_bits())
}

fn matrix(rows: usize, columns: usize, values: &[f64]) -> Array {
    Array::F64(NdArray::new(vec![rows, columns], values.iter().map(|v| float(*v)).collect()).unwrap())
}

#[test]
fn float_array_shows_its_bounds() {
    let properties = infer_array(&matrix(3, 2, &[1., 20., -2., 30., 3., 25.]), Some(4));
    assert_eq!(properties.num_records, Some(3));
    assert_eq!(properties.num_columns, Some(2));
    assert_eq!(properties.lower_f64(), Ok(vec![float(-2.), float(20.)]));
    assert_eq!(properties.upper_f64(), Ok(vec![float(3.), float(30.)]));
    assert!(!properties.nullity);
    assert!(properties.releasable);
    assert!(properties.is_not_empty);
    assert!(properties.aggregator.is_none());
    assert_eq!(properties.c_stability, vec![float(1.), float(1.)]);
    assert_eq!(properties.data_type, DataType::F64);
    assert_eq!(properties.dataset_id, Some(4));
    assert_eq!(properties.dimensionality, 2);
}

#[test]
fn column_with_a_null_shows_no_bound() {
    let properties = infer_array(&matrix(2, 2, &[1., f64::NAN, 2., 3.]), None);
    assert!(properties.nullity);
    assert_eq!(properties.lower_f64_option(), Ok(vec![Some(float(1.)), None]));
    assert_eq!(properties.upper_f64_option(), Ok(vec![Some(float(2.)), None]));
    assert_eq!(
        properties.upper_f64(),
        Err(whitenoise_validator::errors::Error::BoundUnknown(Bound::Upper))
    );
}

#[test]
fn empty_array_shows_no_bound() {
    let properties = infer_array(&matrix(0, 2, &[]), None);
    assert_eq!(properties.num_records, Some(0));
    assert!(!properties.is_not_empty);
    assert_eq!(properties.lower_f64_option(), Ok(vec![None, None]));
}

#[test]
fn scalar_and_vector_have_one_column() {
    let scalar = infer_array(&Array::I64(NdArray::scalar(5)), None);
    assert_eq!((scalar.num_records, scalar.num_columns), (Some(1), Some(1)));
    assert_eq!(scalar.dimensionality, 0);
    assert_eq!(scalar.lower_i64(), Ok(vec![5]));
    assert_eq!(scalar.upper_i64(), Ok(vec![5]));
    let vector = infer_array(&Array::I64(NdArray::vector(vec![3, -1, 2])), None);
    assert_eq!((vector.num_records, vector.num_columns), (Some(3), Some(1)));
    assert_eq!(vector.dimensionality, 1);
    assert_eq!(vector.lower_i64(), Ok(vec![-1]));
    assert_eq!(vector.upper_i64(), Ok(vec![3]));
}

#[test]
fn booleans_and_strings_show_their_categories() {
    let flags = Array::Bool(NdArray::new(vec![3, 2], vec![true, false, true, false, false, false]).unwrap());
    assert_eq!(
        infer_array(&flags, None).categories(),
        Ok(Jagged::Bool(vec![Some(vec![true, false]), Some(vec![false])]))
    );
    let words = Array::Str(NdArray::vector(vec!["b".to_string(), "a".to_string(), "b".to_string()]));
    assert_eq!(
        infer_array(&words, None).categories(),
        Ok(Jagged::Str(vec![Some(vec!["b".to_string(), "a".to_string()])]))
    );
}

#[test]
fn values_of_every_shape_have_properties() {
    let jagged = infer_property(&Value::Jagged(Jagged::I64(vec![])), None).unwrap();
    assert!(jagged.jagged().unwrap().releasable);
    let map = Value::Hashmap(Hashmap::I64(vec![
        (1, Value::from(3i64)),
        (2, Value::Jagged(Jagged::Bool(vec![]))),
    ]));
    let properties = infer_property(&map, Some(9)).unwrap();
    let partitions = properties.hashmap().unwrap();
    assert_eq!(partitions.num_records, None);
    assert!(!partitions.disjoint);
    assert!(partitions.columnar);
    match &partitions.properties {
        Hashmap::I64(entries) => {
            assert_eq!(entries.len(), 2);
            assert_eq!(entries[0].0, 1);
            assert_eq!(entries[0].1.array().unwrap().dataset_id, Some(9));
            assert!(matches!(entries[1].1, ValueProperties::Jagged(_)));
        },
        other => panic!("unexpected {:?}", other),
    }
}
