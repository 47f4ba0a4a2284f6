use whitenoise_validator::array::NdArray;
use whitenoise_validator::base::{
    repeat, Arguments, Array, ArrayProperties, DataType, Hashmap, HashmapProperties, Jagged, JaggedProperties, Nature, NatureCategorical, NatureContinuous, ReleaseNode, SensitivitySpace, Value, ValueProperties, Vector1DNull, is_text_below,
};
use whitenoise_validator::errors::{Argument, Bound, Capability, Error, ErrorKind};
use whitenoise_validator::float::{Float, Operation};
use whitenoise_validator::proto::VariantKind;

fn float(value: f64) -> Float {
    Float::from_bits(value.to_bits())
}

fn number(value: Float) -> f64 {
    f64::from_bits(value.to_bits())
}

fn arithmetic(operation: Operation) -> Float {
    match operation {
        Operation::Add(a, b) => float(number(a) + number(b)),
        Operation::Subtract(a, b) => float(number(a) - number(b)),
        Operation::Multiply(a, b) => float(number(a) * number(b)),
        Operation::Divide(a, b) => float(number(a) / number(b)),
        Operation::FromInteger(n) => float(n as f64),
    }
}

fn strings(values: &[&str]) -> Vec<String> {
    values.iter().map(|v| v.to_string()).collect()
}

fn plain(data_type: DataType) -> ArrayProperties {
    ArrayProperties {
        num_records: None,
        num_columns: None,
        nullity: false,
        releasable: false,
        c_stability: vec![],
        aggregator: None,
        nature: None,
        data_type,
        dataset_id: None,
        is_not_empty: false,
        dimensionality: 2,
    }
}

#[test]
fn array_is_made_only_where_shape_and_items_fit() {
    assert!(NdArray::new(vec![2, 3], vec![0i64; 6]).is_some());
    assert!(NdArray::new(vec![2, 3], vec![0i64; 5]).is_none());
    assert!(NdArray::new(vec![], vec![1i64]).is_some());
    assert!(NdArray::new(vec![], vec![1i64, 2]).is_none());
    assert!(NdArray::new(vec![0], Vec::<i64>::new()).is_some());
    assert!(NdArray::new(vec![1, 1, 1], vec![1i64]).is_none());
    assert!(NdArray::new(vec![usize::MAX, 2], vec![1i64]).is_none());
}

#[test]
fn array_knows_its_shape() {
    let array = NdArray::new(vec![2, 3], vec![1i64, 2, 3, 4, 5, 6]).unwrap();
    assert_eq!(array.ndim(), 2);
    assert_eq!(array.len(), 6);
    assert_eq!(array.num_records(), 2);
    assert_eq!(array.num_columns(), 3);
    assert_eq!(*array.item(1, 2), 6);
    assert_eq!(*array.item(0, 1), 2);
    assert_eq!(array.first(), Some(&1));
    assert_eq!(array.head(), Some(&1));
    let scalar = NdArray::scalar(7i64);
    assert_eq!((scalar.ndim(), scalar.num_records(), scalar.num_columns()), (0, 1, 1));
    let vector = NdArray::vector(vec![1i64, 2, 3]);
    assert_eq!((vector.ndim(), vector.num_records(), vector.num_columns()), (1, 3, 1));
    let row = NdArray::row(vec![1i64, 2, 3]);
    assert_eq!(row.shape(), &vec![1, 3]);
    assert_eq!(row.duplicate(), row);
    let (shape, items) = row.into_parts();
    assert_eq!((shape, items), (vec![1, 3], vec![1, 2, 3]));
    assert_eq!(NdArray::vector(Vec::<i64>::new()).first(), None);
}

#[test]
fn first_item_is_read_by_type() {
    let truth = Array::Bool(NdArray::scalar(true));
    let seven = Array::I64(NdArray::scalar(7));
    let half = Array::F64(NdArray::scalar(float(0.5)));
    let word = Array::Str(NdArray::scalar("a".to_string()));
    let pair = Array::I64(NdArray::vector(vec![1, 2]));
    assert_eq!(truth.first_i64(), Ok(1));
    assert_eq!(seven.first_i64(), Ok(7));
    assert_eq!(half.first_i64(), Err(Error::NotNumeric));
    assert_eq!(pair.first_i64(), Err(Error::NotScalar));
    assert_eq!(truth.first_bool(), Ok(true));
    assert_eq!(seven.first_bool(), Err(Error::NotBool));
    assert_eq!(word.first_string(), Ok("a".to_string()));
    assert_eq!(seven.first_string(), Err(Error::NotString));
    assert_eq!(truth.first_f64(&arithmetic).map(number), Ok(1.0));
    assert_eq!(seven.first_f64(&arithmetic).map(number), Ok(7.0));
    assert_eq!(half.first_f64(&arithmetic).map(number), Ok(0.5));
    assert_eq!(word.first_f64(&arithmetic), Err(Error::NotNumeric));
}

#[test]
fn first_float_of_an_integer_keeps_its_lowest_32_bits() {
    let large = Array::I64(NdArray::scalar((1i64 << 32) + 5));
    assert_eq!(large.first_f64(&arithmetic).map(number), Ok(5.0));
}

#[test]
fn array_of_another_type_is_refused() {
    let seven = Array::I64(NdArray::scalar(7));
    assert_eq!(
        seven.float().unwrap_err(),
        Error::AtomicType { expected: DataType::F64, actual: DataType::I64 }
    );
    assert_eq!(
        seven.bool().unwrap_err(),
        Error::AtomicType { expected: DataType::Bool, actual: DataType::I64 }
    );
    assert_eq!(
        seven.string().unwrap_err(),
        Error::AtomicType { expected: DataType::Str, actual: DataType::I64 }
    );
    assert!(seven.i64().is_ok());
    assert_eq!(
        Array::Bool(NdArray::scalar(true)).i64().unwrap_err(),
        Error::AtomicType { expected: DataType::I64, actual: DataType::Bool }
    );
    assert_eq!(seven.data_type(), DataType::I64);
}

#[test]
fn scalar_is_broadcast_to_a_vector() {
    let seven = Array::I64(NdArray::scalar(7));
    assert_eq!(seven.vec_i64(Some(3)), Ok(vec![7, 7, 7]));
    assert_eq!(seven.vec_i64(Some(0)), Ok(vec![]));
    assert_eq!(seven.vec_i64(Some(-2)), Ok(vec![]));
    assert_eq!(seven.vec_i64(None), Err(Error::VectorCast(DataType::I64)));
    let vector = Array::I64(NdArray::vector(vec![1, 2]));
    assert_eq!(vector.vec_i64(Some(5)), Ok(vec![1, 2]));
    let matrix = Array::I64(NdArray::new(vec![1, 2], vec![1, 2]).unwrap());
    assert_eq!(matrix.vec_i64(Some(2)), Err(Error::VectorCast(DataType::I64)));
    assert_eq!(
        matrix.vec_f64(Some(2)),
        Err(Error::AtomicType { expected: DataType::F64, actual: DataType::I64 })
    );
    let half = Array::F64(NdArray::scalar(float(0.5)));
    assert_eq!(half.vec_f64(Some(2)), Ok(vec![float(0.5), float(0.5)]));
    assert_eq!(repeat(3u8, 2), vec![3, 3]);
}

#[test]
fn records_and_columns_follow_the_axes() {
    let matrix = Array::I64(NdArray::new(vec![4, 2], vec![0; 8]).unwrap());
    assert_eq!(matrix.shape(), vec![4, 2]);
    assert_eq!(matrix.num_records(), Ok(4));
    assert_eq!(matrix.num_columns(), Ok(2));
    let vector = Array::I64(NdArray::vector(vec![1, 2, 3]));
    assert_eq!((vector.num_records(), vector.num_columns()), (Ok(3), Ok(1)));
    let scalar = Array::I64(NdArray::scalar(1));
    assert_eq!((scalar.num_records(), scalar.num_columns()), (Ok(1), Ok(1)));
    assert_eq!(scalar.shape(), Vec::<i64>::new());
}

#[test]
fn value_is_read_by_shape() {
    let array = Value::from(3i64);
    let jagged = Value::Jagged(Jagged::I64(vec![Some(vec![1])]));
    assert!(array.array().is_ok());
    assert_eq!(array.jagged().unwrap_err(), Error::ValueNotJagged);
    assert!(jagged.jagged().is_ok());
    assert_eq!(jagged.array().unwrap_err(), Error::ValueNotArray);
    assert_eq!(array.first_i64(), Ok(3));
    assert_eq!(jagged.first_i64(), Err(Error::FirstUnavailable(DataType::I64)));
    assert_eq!(jagged.first_bool(), Err(Error::FirstUnavailable(DataType::Bool)));
    assert_eq!(jagged.first_string(), Err(Error::FirstUnavailable(DataType::Str)));
    assert_eq!(jagged.first_f64(&arithmetic), Err(Error::FirstUnavailable(DataType::F64)));
    assert_eq!(Value::from(true).first_bool(), Ok(true));
    assert_eq!(Value::from("x".to_string()).first_string(), Ok("x".to_string()));
    assert_eq!(Value::from(float(2.5)).first_f64(&arithmetic).map(number), Ok(2.5));
    assert_eq!(Value::from(NdArray::vector(vec![1i64, 2])).first_i64(), Err(Error::NotScalar));
}

#[test]
fn copy_of_a_value_holds_the_same() {
    let nested = Value::Hashmap(Hashmap::Str(vec![
        ("a".to_string(), Value::from(1i64)),
        ("b".to_string(), Value::Jagged(Jagged::Bool(vec![None, Some(vec![true])]))),
    ]));
    let copy = nested.duplicate();
    match (&nested, &copy) {
        (Value::Hashmap(Hashmap::Str(a)), Value::Hashmap(Hashmap::Str(b))) => {
            assert_eq!(a.len(), b.len());
            assert_eq!(a[0].0, b[0].0);
            assert_eq!(a[0].1.first_i64(), b[0].1.first_i64());
            assert_eq!(a[1].1.jagged().unwrap(), b[1].1.jagged().unwrap());
        },
        _ => panic!("copy differs in shape"),
    }
}

#[test]
fn jagged_columns_are_read_where_all_are_known() {
    let known = Jagged::I64(vec![Some(vec![1, 2]), Some(vec![3])]);
    let partial = Jagged::I64(vec![Some(vec![1, 2]), None]);
    assert_eq!(known.i64(), Ok(vec![vec![1, 2], vec![3]]));
    assert_eq!(partial.i64(), Err(Error::JaggedColumnUnknown(DataType::I64)));
    assert_eq!(known.bool(), Err(Error::JaggedType(DataType::Bool)));
    assert_eq!(known.string(), Err(Error::JaggedType(DataType::Str)));
    assert_eq!(known.float(), Err(Error::JaggedType(DataType::F64)));
    assert_eq!(known.f64_option().unwrap_err(), Error::JaggedType(DataType::F64));
    let floats = Jagged::F64(vec![Some(vec![float(1.5)]), None]);
    assert_eq!(floats.f64_option().unwrap().len(), 2);
    assert_eq!(floats.float(), Err(Error::JaggedColumnUnknown(DataType::F64)));
    assert_eq!(Jagged::Bool(vec![Some(vec![true])]).bool(), Ok(vec![vec![true]]));
    assert_eq!(Jagged::Str(vec![Some(strings(&["a"]))]).string(), Ok(vec![strings(&["a"])]));
    assert_eq!(known.num_columns(), 2);
    assert_eq!(known.data_type(), DataType::I64);
    assert_eq!(known.lengths(), Ok(vec![2, 1]));
    assert_eq!(partial.lengths_option(), vec![Some(2), None]);
    assert_eq!(partial.lengths(), Err(Error::JaggedLengthUnknown));
    assert_eq!(partial.duplicate(), partial);
}

#[test]
fn duplicates_leave_where_they_stand_later() {
    let jagged = Jagged::I64(vec![Some(vec![3, 1, 3, 2, 1]), None, Some(vec![])]);
    assert_eq!(
        jagged.deduplicate(),
        Ok(Jagged::I64(vec![Some(vec![3, 1, 2]), None, Some(vec![])]))
    );
    let words = Jagged::Str(vec![Some(strings(&["b", "a", "b"]))]);
    assert_eq!(words.deduplicate(), Ok(Jagged::Str(vec![Some(strings(&["b", "a"]))])));
    let flags = Jagged::Bool(vec![Some(vec![false, false, true, false])]);
    assert_eq!(flags.deduplicate(), Ok(Jagged::Bool(vec![Some(vec![false, true])])));
    let floats = Jagged::F64(vec![Some(vec![float(1.)])]);
    assert_eq!(floats.deduplicate(), Err(Error::FloatCategorical));
}

#[test]
fn categories_are_standardized_to_the_columns() {
    let one = Jagged::I64(vec![Some(vec![1, 2])]);
    assert_eq!(
        one.standardize(&3),
        Ok(Jagged::I64(vec![Some(vec![1, 2]), Some(vec![1, 2]), Some(vec![1, 2])]))
    );
    assert_eq!(one.standardize(&1), Ok(Jagged::I64(vec![Some(vec![1, 2])])));
    let two = Jagged::I64(vec![Some(vec![1]), Some(vec![2])]);
    assert_eq!(two.standardize(&2), Ok(Jagged::I64(vec![Some(vec![1]), Some(vec![2])])));
    assert_eq!(two.standardize(&3), Err(Error::CategoriesLength));
    assert_eq!(Jagged::I64(vec![]).standardize(&2), Err(Error::CategoriesEmpty));
    assert_eq!(
        Jagged::I64(vec![Some(vec![1]), None]).standardize(&2),
        Err(Error::CategoriesUndefined)
    );
    assert_eq!(
        Jagged::F64(vec![Some(vec![float(1.)])]).standardize(&1),
        Err(Error::FloatCategorical)
    );
}

#[test]
fn hashmap_pairs_its_keys_with_values() {
    let map = Hashmap::I64(vec![(1, "a"), (5, "b"), (9, "c")]);
    assert_eq!(map.keys_length(), 3);
    assert_eq!(map.values(), vec![&"a", &"b", &"c"]);
    match map.from_values(vec!["x", "y"]) {
        Hashmap::I64(entries) => assert_eq!(entries, vec![(1, "x"), (5, "y")]),
        _ => panic!("keys changed their type"),
    }
    match map.from_values(vec!["x", "y", "z", "w"]) {
        Hashmap::I64(entries) => assert_eq!(entries, vec![(1, "x"), (5, "y"), (9, "z")]),
        _ => panic!("keys changed their type"),
    }
    let flags = Hashmap::Bool(vec![(false, 1), (true, 2)]);
    assert_eq!(flags.keys_length(), 2);
    assert_eq!(flags.values(), vec![&1, &2]);
    match flags.from_values(vec![7]) {
        Hashmap::Bool(entries) => assert_eq!(entries, vec![(false, 7)]),
        _ => panic!("keys changed their type"),
    }
    let words = Hashmap::Str(vec![("a".to_string(), 1), ("b".to_string(), 2)]);
    assert_eq!(words.keys_length(), 2);
    assert_eq!(words.values(), vec![&1, &2]);
    match words.from_values(vec![8, 9]) {
        Hashmap::Str(entries) => {
            assert_eq!(entries, vec![("a".to_string(), 8), ("b".to_string(), 9)])
        },
        _ => panic!("keys changed their type"),
    }
    let empty: Hashmap<i64> = Hashmap::Str(vec![]);
    assert_eq!(empty.keys_length(), 0);
    assert!(empty.values().is_empty());
}

#[test]
fn arguments_are_found_by_name() {
    let mut arguments: Arguments<u32> = Arguments::new();
    assert_eq!(arguments.get("data"), None);
    assert!(!arguments.contains_key("data"));
    arguments.insert("data", 3);
    arguments.insert("lower", 4);
    assert_eq!(arguments.get("data"), Some(&3));
    assert_eq!(arguments.get("lower"), Some(&4));
    assert_eq!(arguments.get("upper"), None);
    arguments.insert("data", 9);
    assert_eq!(arguments.get("data"), Some(&9));
    assert_eq!(arguments.get("lower"), Some(&4));
    assert_eq!(arguments.names(), strings(&["data", "lower"]));
    let copy = arguments.duplicate();
    assert_eq!(copy.get("data"), Some(&9));
    assert_eq!(copy.get("lower"), Some(&4));
    assert_eq!(copy.get("upper"), None);
}

#[test]
fn properties_are_read_by_shape() {
    let array = ValueProperties::from(plain(DataType::I64));
    let jagged = ValueProperties::from(JaggedProperties { releasable: true });
    let map = ValueProperties::from(HashmapProperties {
        num_records: Some(4),
        disjoint: true,
        properties: Hashmap::Bool(vec![]),
        columnar: false,
    });
    assert!(array.array().is_ok());
    assert_eq!(array.jagged().unwrap_err(), Error::PropertiesNotJagged);
    assert_eq!(array.hashmap().unwrap_err(), Error::PropertiesNotHashmap);
    assert_eq!(jagged.array().unwrap_err(), Error::PropertiesNotArray);
    assert_eq!(jagged.jagged(), Ok(&JaggedProperties { releasable: true }));
    let partitions = map.hashmap().unwrap();
    assert_eq!(partitions.num_records(), Ok(4));
    assert_eq!(partitions.assert_is_disjoint(), Err(Error::Disjoint));
    assert_eq!(partitions.assert_is_not_columnar(), Ok(()));
    let mut arguments = Arguments::new();
    arguments.insert("data", array);
    assert!(!arguments.any_partitioned());
    arguments.insert("other", map);
    assert!(arguments.any_partitioned());
}

#[test]
fn partitions_without_count_or_by_columns_are_refused() {
    let partitions = HashmapProperties {
        num_records: None,
        disjoint: false,
        properties: Hashmap::I64(vec![(1, ValueProperties::from(plain(DataType::Bool)))]),
        columnar: true,
    };
    assert_eq!(partitions.num_records(), Err(Error::PartitionRecordsUnknown));
    assert_eq!(partitions.assert_is_disjoint(), Ok(()));
    assert_eq!(partitions.assert_is_not_columnar(), Err(Error::Columnar));
    let copy = ValueProperties::from(partitions).duplicate();
    assert!(copy.hashmap().unwrap().columnar);
    assert_eq!(copy.hashmap().unwrap().properties.keys_length(), 1);
}

#[test]
fn bounds_are_read_where_known() {
    let mut properties = plain(DataType::F64);
    assert_eq!(properties.lower_f64(), Err(Error::BoundUndefined(Bound::Lower)));
    assert_eq!(properties.upper_f64_option(), Err(Error::BoundUndefined(Bound::Upper)));
    properties.nature = Some(Nature::Continuous(NatureContinuous {
        lower: Vector1DNull::F64(vec![Some(float(0.)), Some(float(1.))]),
        upper: Vector1DNull::F64(vec![Some(float(5.)), None]),
    }));
    assert_eq!(properties.lower_f64(), Ok(vec![float(0.), float(1.)]));
    assert_eq!(properties.lower_f64_option(), Ok(vec![Some(float(0.)), Some(float(1.))]));
    assert_eq!(properties.upper_f64_option(), Ok(vec![Some(float(5.)), None]));
    assert_eq!(properties.upper_f64(), Err(Error::BoundUnknown(Bound::Upper)));
    assert_eq!(properties.lower_i64(), Err(Error::BoundType(Bound::Lower, DataType::I64)));
    assert_eq!(properties.upper_i64_option(), Err(Error::BoundType(Bound::Upper, DataType::I64)));
    assert_eq!(properties.categories(), Err(Error::CategoriesUndefined));
    properties.nature = Some(Nature::Continuous(NatureContinuous {
        lower: Vector1DNull::I64(vec![Some(-3)]),
        upper: Vector1DNull::I64(vec![Some(8)]),
    }));
    assert_eq!(properties.lower_i64(), Ok(vec![-3]));
    assert_eq!(properties.upper_i64(), Ok(vec![8]));
    assert_eq!(properties.lower_i64_option(), Ok(vec![Some(-3)]));
    assert_eq!(properties.upper_i64_option(), Ok(vec![Some(8)]));
    assert_eq!(properties.upper_f64(), Err(Error::BoundType(Bound::Upper, DataType::F64)));
    properties.nature = Some(Nature::Categorical(NatureCategorical {
        categories: Jagged::I64(vec![Some(vec![1]), None]),
    }));
    assert_eq!(properties.lower_f64(), Err(Error::BoundNotContinuous(Bound::Lower)));
    assert_eq!(properties.categories(), Ok(Jagged::I64(vec![Some(vec![1]), None])));
    assert_eq!(properties.assert_categorical(), Err(Error::JaggedLengthUnknown));
    properties.nature = None;
    assert_eq!(properties.categories(), Err(Error::CategoricalUndefined));
    assert_eq!(properties.assert_categorical(), Err(Error::CategoricalUndefined));
}

#[test]
fn nature_is_read_by_kind() {
    let continuous = Nature::Continuous(NatureContinuous {
        lower: Vector1DNull::I64(vec![None]),
        upper: Vector1DNull::F64(vec![None]),
    });
    let categorical =
        Nature::Categorical(NatureCategorical { categories: Jagged::Bool(vec![]) });
    assert!(continuous.continuous().is_ok());
    assert_eq!(continuous.categorical().unwrap_err(), Error::NatureNotCategorical);
    assert!(categorical.categorical().is_ok());
    assert_eq!(categorical.continuous().unwrap_err(), Error::NatureNotContinuous);
    let bounds = continuous.continuous().unwrap();
    assert_eq!(bounds.lower.i64(), Ok(&vec![None]));
    assert_eq!(bounds.lower.float().unwrap_err(), Error::VectorType(DataType::F64));
    assert_eq!(bounds.upper.float(), Ok(&vec![None]));
    assert_eq!(bounds.upper.i64().unwrap_err(), Error::VectorType(DataType::I64));
    assert_eq!(continuous.duplicate(), continuous);
}

#[test]
fn requirements_on_arrays_are_checked() {
    let mut properties = plain(DataType::F64);
    assert_eq!(properties.assert_non_null(), Ok(()));
    assert_eq!(properties.assert_is_not_empty(), Err(Error::Empty));
    assert_eq!(properties.assert_is_releasable(), Err(Error::NotReleasable));
    assert_eq!(properties.assert_is_not_aggregated(), Ok(()));
    assert_eq!(properties.num_columns(), Err(Error::ColumnsUnknown));
    assert_eq!(properties.num_records(), Err(Error::RecordsUnknown));
    properties.nullity = true;
    properties.is_not_empty = true;
    properties.releasable = true;
    properties.num_columns = Some(2);
    properties.num_records = Some(10);
    assert_eq!(properties.assert_non_null(), Err(Error::Nullity));
    assert_eq!(properties.assert_is_not_empty(), Ok(()));
    assert_eq!(properties.assert_is_releasable(), Ok(()));
    assert_eq!(properties.num_columns(), Ok(2));
    assert_eq!(properties.num_records(), Ok(10));
}

#[test]
fn release_starts_private_and_unpaid() {
    let node = ReleaseNode::new(Value::from(1i64));
    assert!(!node.public);
    assert!(node.privacy_usages.is_none());
    assert_eq!(node.value.first_i64(), Ok(1));
    assert_ne!(SensitivitySpace::KNorm(1), SensitivitySpace::KNorm(2));
    assert_ne!(SensitivitySpace::InfNorm, SensitivitySpace::Exponential);
}

#[test]
fn errors_have_kind_cause_and_words() {
    let inner = Error::BoundsInverted;
    assert_eq!(inner.kind(), ErrorKind::InvariantViolation);
    assert_eq!(inner.message(), "lower is greater than upper");
    let filed = Error::BoundUnknown(Bound::Lower).within(Argument::Lower).at_node(VariantKind::Clamp);
    assert_eq!(filed.kind(), ErrorKind::Malformed);
    assert_eq!(filed.cause(), &Error::BoundUnknown(Bound::Lower));
    assert_eq!(
        filed.message(),
        "node specification Clamp: lower: not all lower bounds are known"
    );
    let at = Error::NormUnsupported.at_id(12);
    assert_eq!(at.kind(), ErrorKind::Unsupported);
    assert_eq!(at.message(), "node 12: KNorm sensitivity is only supported in L1 and L2 spaces");
    assert_eq!(Error::Underived(40).message(), "failure to propagate properties to node 40");
    assert_eq!(Error::Missing(Argument::Data).message(), "data: missing");
    assert_eq!(
        Error::AtomicType { expected: DataType::F64, actual: DataType::I64 }.message(),
        "atomic type: expected float, got integer"
    );
    assert_eq!(
        Error::CapabilityMissing(Capability::Sensitivity, VariantKind::Cast).message(),
        "proto component Cast is missing its Sensitivity trait"
    );
    assert_eq!(
        Error::SpaceUnsupported(VariantKind::Covariance).kind(),
        ErrorKind::Unsupported
    );
    assert_eq!(Error::Aggregated.kind(), ErrorKind::InvariantViolation);
    assert_eq!(Error::Cycle.kind(), ErrorKind::Malformed);
    assert_eq!(VariantKind::Mapped.name(), "Map");
    assert_eq!(Argument::NullValue.name(), "null_value");
    assert_eq!(DataType::Str.name(), "string");
}

#[test]
fn texts_stand_in_the_order_of_their_characters() {
    assert!(is_text_below("a", "b"));
    assert!(is_text_below("a", "ab"));
    assert!(is_text_below("", "a"));
    assert!(is_text_below("Zebra", "apple"));
    assert!(is_text_below("abc", "abd"));
    assert!(is_text_below("é", "日"));
    assert!(!is_text_below("a", "a"));
    assert!(!is_text_below("", ""));
    assert!(!is_text_below("b", "a"));
    assert!(!is_text_below("ab", "a"));
    for (first, second) in [("a", "b"), ("ab", "b"), ("é", "z"), ("", "x"), ("same", "same")] {
        assert_eq!(is_text_below(first, second), first < second);
        assert_eq!(is_text_below(second, first), second < first);
    }
}

#[test]
fn a_map_is_well_formed_where_its_keys_rise() {
    assert!(Hashmap::<i64>::Bool(vec![]).is_well_formed());
    assert!(Hashmap::Bool(vec![(true, 1)]).is_well_formed());
    assert!(Hashmap::Bool(vec![(false, 1), (true, 2)]).is_well_formed());
    assert!(!Hashmap::Bool(vec![(true, 1), (false, 2)]).is_well_formed());
    assert!(!Hashmap::Bool(vec![(false, 1), (false, 2)]).is_well_formed());
    assert!(!Hashmap::Bool(vec![(false, 1), (true, 2), (true, 3)]).is_well_formed());

    assert!(Hashmap::I64(vec![(-3, 1), (0, 2), (7, 3)]).is_well_formed());
    assert!(!Hashmap::I64(vec![(0, 1), (0, 2)]).is_well_formed());
    assert!(!Hashmap::I64(vec![(1, 1), (3, 2), (2, 3)]).is_well_formed());

    let words = |keys: &[&str]| {
        Hashmap::Str(keys.iter().enumerate().map(|(i, k)| (k.to_string(), i)).collect())
    };
    assert!(words(&[]).is_well_formed());
    assert!(words(&["a", "ab", "b"]).is_well_formed());
    assert!(!words(&["b", "a"]).is_well_formed());
    assert!(!words(&["a", "a"]).is_well_formed());
    assert!(!words(&["a", "c", "b"]).is_well_formed());
}

#[test]
fn a_map_is_taken_only_where_it_is_well_formed() {
    let map = Hashmap::I64(vec![(1, "a"), (5, "b")]).checked().unwrap();
    assert_eq!(map.values(), vec![&"a", &"b"]);
    assert!(Hashmap::I64(vec![(5, "b"), (1, "a")]).checked().is_none());
    assert!(Hashmap::Str(vec![("b".to_string(), 1), ("a".to_string(), 2)]).checked().is_none());
}
