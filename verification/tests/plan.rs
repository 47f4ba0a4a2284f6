use whitenoise_validator::array::NdArray;
use whitenoise_validator::base::{Arguments, Array, DataType, Jagged, Value};
use whitenoise_validator::errors::{Argument, Error};
use whitenoise_validator::float::Float;
use whitenoise_validator::proto::{PrivacyDefinition, Resize};
use whitenoise_validator::runtime::plan::{choose_imputation, imputation, Imputation, Synthesis};

fn float(value: f64) -> Float {
    Float::from_bits(value.to_bits())
}

fn floats(values: &[f64]) -> Value {
    Value::Array(Array::F64(NdArray::vector(values.iter().map(|v| float(*v)).collect())))
}

fn integers(values: &[i64]) -> Value {
    Value::Array(Array::I64(NdArray::vector(values.to_vec())))
}

fn integer(value: i64) -> Value {
    Value::Array(Array::I64(NdArray::scalar(value)))
}

fn text(value: &str) -> Value {
    Value::Array(Array::Str(NdArray::scalar(value.to_string())))
}

fn arguments(entries: Vec<(&str, Value)>) -> Arguments<Value> {
    let mut out = Arguments::new();
    for (name, value) in entries {
        out.insert(name, value);
    }
    out
}

fn protecting(protect_elapsed_time: bool) -> Option<PrivacyDefinition> {
    Some(PrivacyDefinition {
        group_size: 1,
        neighboring: 1,
        strict_parameter_checks: false,
        protect_overflow: false,
        protect_elapsed_time,
        protect_memory_utilization: false,
        protect_floating_point: false,
    })
}

#[test]
fn floats_are_resized_between_bounds_uniformly_by_default() {
    let given = arguments(vec![
        ("data", floats(&[1., 2., 3.])),
        ("lower", floats(&[0.])),
        ("upper", floats(&[10.])),
        ("number_rows", integer(5)),
    ]);
    let plan = Resize {}.plan(&None, &given).unwrap();
    assert_eq!(plan.number_rows, Some(5));
    assert_eq!(plan.number_cols, None);
    assert_eq!(plan.minimum_rows, None);
    assert!(!plan.enforce_constant_time);
    assert!(plan.data == Array::F64(NdArray::vector(vec![float(1.), float(2.), float(3.)])));
    match plan.synthesis {
        Synthesis::Floats { lower, upper, distribution, shift, scale } => {
            assert!(lower == NdArray::vector(vec![float(0.)]));
            assert!(upper == NdArray::vector(vec![float(10.)]));
            assert_eq!(distribution, "uniform");
            assert!(shift.is_none() && scale.is_none());
        }
        other => panic!("unexpected {:?}", other),
    }
}

#[test]
fn the_distribution_and_its_parameters_are_read() {
    let given = arguments(vec![
        ("data", floats(&[1., 2., 3.])),
        ("lower", floats(&[0.])),
        ("upper", floats(&[10.])),
        ("distribution", text("Gaussian")),
        ("shift", floats(&[5.])),
        ("scale", floats(&[2.])),
        ("number_columns", integer(2)),
    ]);
    let plan = Resize {}.plan(&protecting(true), &given).unwrap();
    assert!(plan.enforce_constant_time);
    assert_eq!(plan.number_cols, Some(2));
    match plan.synthesis {
        Synthesis::Floats { distribution, shift, scale, .. } => {
            assert_eq!(distribution, "Gaussian");
            assert!(shift == Some(NdArray::vector(vec![float(5.)])));
            assert!(scale == Some(NdArray::vector(vec![float(2.)])));
        }
        other => panic!("unexpected {:?}", other),
    }
    assert!(!Resize {}.plan(&protecting(false), &given).unwrap().enforce_constant_time);
}

#[test]
fn a_minimum_of_records_takes_the_place_of_their_number() {
    let given = arguments(vec![
        ("data", integers(&[1, 2, 3])),
        ("lower", integers(&[0])),
        ("upper", integers(&[10])),
        ("number_rows", integer(5)),
        ("minimum_rows", integer(2)),
    ]);
    let plan = Resize {}.plan(&None, &given).unwrap();
    assert_eq!(plan.number_rows, Some(2));
    assert_eq!(plan.minimum_rows, Some(2));
    match plan.synthesis {
        Synthesis::Integers { lower, upper } => {
            assert!(lower == NdArray::vector(vec![0]));
            assert!(upper == NdArray::vector(vec![10]));
        }
        other => panic!("unexpected {:?}", other),
    }
}

#[test]
fn a_number_that_is_no_single_integer_counts_as_missing() {
    let given = arguments(vec![
        ("data", integers(&[1, 2, 3])),
        ("lower", integers(&[0])),
        ("upper", integers(&[10])),
        ("number_rows", integers(&[5, 6])),
        ("number_columns", text("two")),
    ]);
    let plan = Resize {}.plan(&None, &given).unwrap();
    assert_eq!(plan.number_rows, None);
    assert_eq!(plan.number_cols, None);
}

#[test]
fn data_with_categories_is_resized_as_categorical() {
    let categories = Value::Jagged(Jagged::I64(vec![Some(vec![1, 2, 3])]));
    let weights = Value::Jagged(Jagged::F64(vec![Some(vec![float(0.5), float(0.25), float(0.25)])]));
    let given = arguments(vec![
        ("data", integers(&[1, 2, 3])),
        ("categories", categories),
        ("weights", weights),
        ("number_rows", integer(4)),
    ]);
    let plan = Resize {}.plan(&None, &given).unwrap();
    match plan.synthesis {
        Synthesis::Categories { categories, weights } => {
            assert!(categories == Jagged::I64(vec![Some(vec![1, 2, 3])]));
            assert_eq!(weights, Some(vec![vec![float(0.5), float(0.25), float(0.25)]]));
        }
        other => panic!("unexpected {:?}", other),
    }
    let unweighted = arguments(vec![
        ("data", integers(&[1, 2, 3])),
        ("categories", Value::Jagged(Jagged::I64(vec![Some(vec![1, 2, 3])]))),
        ("weights", integers(&[1])),
    ]);
    let plan = Resize {}.plan(&None, &unweighted).unwrap();
    match plan.synthesis {
        Synthesis::Categories { weights, .. } => assert_eq!(weights, None),
        other => panic!("unexpected {:?}", other),
    }
}

#[test]
fn categorical_resizing_needs_data_and_categories_of_one_type() {
    let floating = arguments(vec![
        ("data", floats(&[1.])),
        ("categories", Value::Jagged(Jagged::F64(vec![Some(vec![float(1.)])]))),
    ]);
    assert_eq!(Resize {}.plan(&None, &floating), Err(Error::FloatCategorical));
    let mixed = arguments(vec![
        ("data", floats(&[1.])),
        ("categories", Value::Jagged(Jagged::I64(vec![Some(vec![1])]))),
    ]);
    assert_eq!(Resize {}.plan(&None, &mixed), Err(Error::CategoriesType));
    let flat = arguments(vec![("data", integers(&[1])), ("categories", integers(&[1]))]);
    assert_eq!(Resize {}.plan(&None, &flat), Err(Error::ValueNotJagged));
    let jagged_data = arguments(vec![
        ("data", Value::Jagged(Jagged::I64(vec![Some(vec![1])]))),
        ("categories", Value::Jagged(Jagged::I64(vec![Some(vec![1])]))),
    ]);
    assert_eq!(Resize {}.plan(&None, &jagged_data), Err(Error::ValueNotArray));
    let alone = arguments(vec![("categories", Value::Jagged(Jagged::I64(vec![Some(vec![1])])))]);
    assert_eq!(Resize {}.plan(&None, &alone), Err(Error::Missing(Argument::Data)));
}

#[test]
fn numeric_resizing_needs_data_and_bounds_of_one_numeric_type() {
    assert_eq!(
        Resize {}.plan(&None, &arguments(vec![])),
        Err(Error::Missing(Argument::Data))
    );
    assert_eq!(
        Resize {}.plan(&None, &arguments(vec![("data", floats(&[1.]))])),
        Err(Error::Missing(Argument::Lower))
    );
    assert_eq!(
        Resize {}.plan(&None, &arguments(vec![("data", floats(&[1.])), ("lower", floats(&[0.]))])),
        Err(Error::Missing(Argument::Upper))
    );
    let mixed = arguments(vec![
        ("data", floats(&[1.])),
        ("lower", integers(&[0])),
        ("upper", floats(&[2.])),
    ]);
    assert_eq!(Resize {}.plan(&None, &mixed), Err(Error::ResizeNotNumeric));
    let words = arguments(vec![("data", text("a")), ("lower", text("a")), ("upper", text("b"))]);
    assert_eq!(Resize {}.plan(&None, &words), Err(Error::ResizeNotNumeric));
    let shifted = arguments(vec![
        ("data", floats(&[1.])),
        ("lower", floats(&[0.])),
        ("upper", floats(&[2.])),
        ("shift", integers(&[1])),
    ]);
    assert_eq!(
        Resize {}.plan(&None, &shifted),
        Err(Error::AtomicType { expected: DataType::F64, actual: DataType::I64 })
    );
    let named = arguments(vec![
        ("data", floats(&[1.])),
        ("lower", floats(&[0.])),
        ("upper", floats(&[2.])),
        ("distribution", integers(&[1])),
    ]);
    assert_eq!(Resize {}.plan(&None, &named), Err(Error::NotString));
}

#[test]
fn the_imputation_follows_the_name_of_the_distribution() {
    let shift = Some(NdArray::vector(vec![float(5.)]));
    let scale = Some(NdArray::vector(vec![float(2.)]));
    assert_eq!(imputation("uniform", &None, &None), Ok(Imputation::Uniform));
    assert_eq!(imputation("UNIFORM", &shift, &scale), Ok(Imputation::Uniform));
    assert_eq!(
        imputation("Gaussian", &shift, &scale),
        Ok(Imputation::Gaussian {
            shift: NdArray::vector(vec![float(5.)]),
            scale: NdArray::vector(vec![float(2.)]),
        })
    );
    assert_eq!(imputation("gaussian", &None, &scale), Err(Error::ShiftUndefined));
    assert_eq!(imputation("gaussian", &shift, &None), Err(Error::ScaleUndefined));
    assert_eq!(imputation("gaussian", &None, &None), Err(Error::ShiftUndefined));
    assert_eq!(imputation("laplace", &shift, &scale), Err(Error::DistributionUnrecognized));
    assert_eq!(imputation("", &shift, &scale), Err(Error::DistributionUnrecognized));
    assert_eq!(
        choose_imputation(&"Uniform".to_string(), &None, &None),
        Err(Error::DistributionUnrecognized)
    );
}
