use whitenoise_validator::array::NdArray;
use whitenoise_validator::base::{
    AggregatorProperties, Arguments, Array, ArrayProperties, DataType, Hashmap, HashmapProperties,
    Jagged, JaggedProperties, Nature, NatureCategorical, NatureContinuous, NodeProperties, Value,
    ValueProperties, Vector1DNull,
};
use whitenoise_validator::components::cast::parse_atomic_type;
use whitenoise_validator::components::{Component, Warnable};
use whitenoise_validator::errors::{Argument, Bound, Capability, Error};
use whitenoise_validator::float::{Float, Operation};
use whitenoise_validator::proto::{
    Cast, Clamp, Component as Node, Covariance, Impute, Index, Quantile, Resize, Sum, Variance,
    Variant, VariantKind,
};

fn float(value: f64) -> Float {
    Float::from_bits(value.to_bits())
}

fn number(value: Float) -> f64 {
    f64::from_bits(value.to_bits())
}

fn arithmetic(operation: Operation) -> Float {
    match operation {
        Operation::Add(a, b) => float(number(a) + number(b)),
        Operation::Subtract(a, b) => float(number(a) - number(b)),
        Operation::Multiply(a, b) => float(number(a) * number(b)),
        Operation::Divide(a, b) => float(number(a) / number(b)),
        Operation::FromInteger(n) => float(n as f64),
    }
}

fn known(values: &[f64]) -> Vector1DNull {
    Vector1DNull::F64(values.iter().map(|v| Some(float(*v))).collect())
}

fn partly(values: &[Option<f64>]) -> Vector1DNull {
    Vector1DNull::F64(values.iter().map(|v| v.map(float)).collect())
}

fn whole(values: &[i64]) -> Vector1DNull {
    Vector1DNull::I64(values.iter().map(|v| Some(*v)).collect())
}

fn data(data_type: DataType, num_columns: Option<i64>) -> ArrayProperties {
    ArrayProperties {
        num_records: Some(100),
        num_columns,
        nullity: true,
        releasable: false,
        c_stability: vec![float(1.); num_columns.unwrap_or(0).max(0) as usize],
        aggregator: None,
        nature: None,
        data_type,
        dataset_id: Some(7),
        is_not_empty: true,
        dimensionality: 2,
    }
}

fn bounded(lower: &[f64], upper: &[f64]) -> ArrayProperties {
    let mut properties = data(DataType::F64, Some(lower.len() as i64));
    properties.nature =
        Some(Nature::Continuous(NatureContinuous { lower: known(lower), upper: known(upper) }));
    properties
}

fn aggregated(mut properties: ArrayProperties) -> ArrayProperties {
    properties.aggregator =
        Some(AggregatorProperties::new(Variant::Sum(Sum {}), Arguments::new(), 1));
    properties
}

fn of(entries: Vec<(&str, ArrayProperties)>) -> NodeProperties {
    let mut properties = Arguments::new();
    for (name, entry) in entries {
        properties.insert(name, ValueProperties::Array(entry));
    }
    properties
}

fn public(entries: Vec<(&str, Value)>) -> Arguments<Value> {
    let mut arguments = Arguments::new();
    for (name, value) in entries {
        arguments.insert(name, value);
    }
    arguments
}

fn floats(values: &[f64]) -> Value {
    Value::from(NdArray::vector(values.iter().map(|v| float(*v)).collect::<Vec<Float>>()))
}

fn derived(result: Result<Warnable<ValueProperties>, Error>) -> ArrayProperties {
    let warnable = result.unwrap();
    assert!(warnable.warnings.is_empty());
    match warnable.value {
        ValueProperties::Array(array) => array,
        other => panic!("unexpected {:?}", other),
    }
}

fn refused(result: Result<Warnable<ValueProperties>, Error>) -> Error {
    result.unwrap_err()
}

fn float_bounds(properties: &ArrayProperties) -> (Vec<Option<f64>>, Vec<Option<f64>>) {
    (
        properties.lower_f64_option().unwrap().iter().map(|v| v.map(number)).collect(),
        properties.upper_f64_option().unwrap().iter().map(|v| v.map(number)).collect(),
    )
}

fn clamp(arguments: &Arguments<Value>, properties: NodeProperties) -> Result<Warnable<ValueProperties>, Error> {
    Clamp {}.propagate_property(&None, arguments, properties, 3, &arithmetic)
}

fn impute(arguments: &Arguments<Value>, properties: NodeProperties) -> Result<Warnable<ValueProperties>, Error> {
    Impute {}.propagate_property(&None, arguments, properties, 3, &arithmetic)
}

fn resize(arguments: &Arguments<Value>, properties: NodeProperties) -> Result<Warnable<ValueProperties>, Error> {
    Resize {}.propagate_property(&None, arguments, properties, 3, &arithmetic)
}

fn cast(to: &str, arguments: &Arguments<Value>, properties: NodeProperties) -> Result<Warnable<ValueProperties>, Error> {
    Cast { atomic_type: to.to_string() }.propagate_property(&None, arguments, properties, 3, &arithmetic)
}

#[test]
fn clamp_with_inverted_bounds_fails() {
    let arguments = public(vec![("lower", floats(&[0.0])), ("upper", floats(&[-1.0]))]);
    let properties = of(vec![("data", data(DataType::F64, Some(1)))]);
    assert_eq!(refused(clamp(&arguments, properties)), Error::BoundsInverted);
}

#[test]
fn clamp_with_equal_bounds_fails() {
    let arguments = public(vec![("lower", Value::from(float(1.))), ("upper", Value::from(float(1.)))]);
    let properties = of(vec![("data", data(DataType::F64, Some(2)))]);
    assert_eq!(refused(clamp(&arguments, properties)), Error::BoundsInverted);
}

#[test]
fn clamp_with_a_bound_that_is_no_number_fails() {
    let arguments =
        public(vec![("lower", Value::from(float(f64::NAN))), ("upper", Value::from(float(1.)))]);
    let properties = of(vec![("data", data(DataType::F64, Some(1)))]);
    assert_eq!(refused(clamp(&arguments, properties)), Error::BoundsInverted);
}

#[test]
fn clamp_beside_the_bounds_of_the_data_fails() {
    let arguments = public(vec![("lower", floats(&[5.0])), ("upper", floats(&[10.0]))]);
    let properties = of(vec![("data", bounded(&[0.0], &[3.0]))]);
    assert_eq!(refused(clamp(&arguments, properties)), Error::BoundsInverted);

    let arguments = public(vec![("lower", floats(&[-10.0])), ("upper", floats(&[-5.0]))]);
    let properties = of(vec![("data", bounded(&[0.0], &[3.0]))]);
    assert_eq!(refused(clamp(&arguments, properties)), Error::BoundsInverted);

    let arguments = public(vec![("lower", floats(&[3.0])), ("upper", floats(&[10.0]))]);
    let properties = of(vec![("data", bounded(&[0.0], &[3.0]))]);
    assert_eq!(refused(clamp(&arguments, properties)), Error::BoundsInverted);

    let arguments =
        public(vec![("lower", floats(&[1.0, 5.0])), ("upper", floats(&[2.0, 10.0]))]);
    let properties = of(vec![("data", bounded(&[0.0, 0.0], &[3.0, 3.0]))]);
    assert_eq!(refused(clamp(&arguments, properties)), Error::BoundsInverted);
}

#[test]
fn clamp_of_integers_beside_the_bounds_of_the_data_fails() {
    let mut known_data = data(DataType::I64, Some(1));
    known_data.nullity = false;
    known_data.nature = Some(Nature::Continuous(NatureContinuous {
        lower: whole(&[0]),
        upper: whole(&[3]),
    }));
    let integers = |value: i64| Value::from(NdArray::vector(vec![value]));
    let arguments = public(vec![("lower", integers(5)), ("upper", integers(10))]);
    let properties = of(vec![("data", known_data)]);
    assert_eq!(refused(clamp(&arguments, properties)), Error::BoundsInverted);
}

#[test]
fn clamp_that_overlaps_the_bounds_of_the_data_keeps_the_overlap() {
    let arguments = public(vec![("lower", floats(&[2.0])), ("upper", floats(&[10.0]))]);
    let properties = of(vec![("data", bounded(&[0.0], &[3.0]))]);
    let clamped = derived(clamp(&arguments, properties));
    assert_eq!(float_bounds(&clamped), (vec![Some(2.)], vec![Some(3.)]));
}

#[test]
fn clamp_sets_the_bounds_of_every_column() {
    let arguments =
        public(vec![("lower", Value::from(float(0.))), ("upper", Value::from(float(10.)))]);
    let properties = of(vec![("data", data(DataType::F64, Some(2)))]);
    let clamped = derived(clamp(&arguments, properties));
    assert_eq!(
        float_bounds(&clamped),
        (vec![Some(0.), Some(0.)], vec![Some(10.), Some(10.)])
    );
    assert_eq!(clamped.num_columns, Some(2));
    assert_eq!(clamped.num_records, Some(100));
    assert!(clamped.nullity);
    assert_eq!(clamped.data_type, DataType::F64);
}

#[test]
fn clamp_only_tightens_what_the_data_knows() {
    let mut known_data = data(DataType::F64, Some(3));
    known_data.nature = Some(Nature::Continuous(NatureContinuous {
        lower: partly(&[Some(2.), None, Some(-5.)]),
        upper: partly(&[Some(20.), Some(5.), None]),
    }));
    let arguments =
        public(vec![("lower", Value::from(float(0.))), ("upper", Value::from(float(10.)))]);
    let clamped = derived(clamp(&arguments, of(vec![("data", known_data)])));
    assert_eq!(
        float_bounds(&clamped),
        (vec![Some(2.), Some(0.), Some(0.)], vec![Some(10.), Some(5.), Some(10.)])
    );
}

#[test]
fn clamp_prefers_public_bounds_over_derived_ones() {
    let arguments = public(vec![("lower", floats(&[1.])), ("upper", floats(&[9.]))]);
    let properties = of(vec![
        ("data", data(DataType::F64, Some(1))),
        ("lower", bounded(&[3.], &[4.])),
        ("upper", bounded(&[5.], &[6.])),
    ]);
    let clamped = derived(clamp(&arguments, properties));
    assert_eq!(float_bounds(&clamped), (vec![Some(1.)], vec![Some(9.)]));
}

#[test]
fn clamp_takes_bounds_from_the_properties_of_its_arguments() {
    let properties = of(vec![
        ("data", data(DataType::F64, Some(1))),
        ("lower", bounded(&[3.], &[4.])),
        ("upper", bounded(&[5.], &[6.])),
    ]);
    let clamped = derived(clamp(&public(vec![]), properties));
    assert_eq!(float_bounds(&clamped), (vec![Some(3.)], vec![Some(6.)]));
}

#[test]
fn clamp_falls_back_on_the_bounds_of_the_data() {
    let properties = of(vec![("data", bounded(&[3., 1.], &[4., 2.]))]);
    let clamped = derived(clamp(&public(vec![]), properties));
    assert_eq!(float_bounds(&clamped), (vec![Some(3.), Some(1.)], vec![Some(4.), Some(2.)]));
}

#[test]
fn clamp_without_any_bound_fails() {
    let properties = of(vec![("data", data(DataType::F64, Some(1)))]);
    assert_eq!(
        refused(clamp(&public(vec![]), properties)),
        Error::BoundUndefined(Bound::Lower).within(Argument::Lower)
    );
    let arguments = public(vec![("lower", Value::from(float(0.)))]);
    let properties = of(vec![("data", data(DataType::F64, Some(1)))]);
    assert_eq!(
        refused(clamp(&arguments, properties)),
        Error::BoundUndefined(Bound::Upper).within(Argument::Upper)
    );
}

#[test]
fn clamp_of_integers_sets_integer_bounds() {
    let mut known_data = data(DataType::I64, Some(2));
    known_data.nature = Some(Nature::Continuous(NatureContinuous {
        lower: whole(&[-3, 4]),
        upper: whole(&[3, 40]),
    }));
    let arguments = public(vec![("lower", Value::from(0i64)), ("upper", Value::from(10i64))]);
    let clamped = derived(clamp(&arguments, of(vec![("data", known_data)])));
    assert_eq!(clamped.lower_i64(), Ok(vec![0, 4]));
    assert_eq!(clamped.upper_i64(), Ok(vec![3, 10]));
}

#[test]
fn clamp_refuses_bounds_of_another_type() {
    let arguments = public(vec![("lower", Value::from(0i64)), ("upper", Value::from(10i64))]);
    let properties = of(vec![("data", data(DataType::F64, Some(1)))]);
    assert_eq!(
        refused(clamp(&arguments, properties)),
        Error::AtomicType { expected: DataType::F64, actual: DataType::I64 }.within(Argument::Lower)
    );
    let arguments = public(vec![("lower", Value::Jagged(Jagged::I64(vec![])))]);
    let properties = of(vec![("data", data(DataType::F64, Some(1)))]);
    assert_eq!(refused(clamp(&arguments, properties)), Error::ValueNotArray);
}

#[test]
fn clamp_refuses_what_it_cannot_work_on() {
    assert_eq!(refused(clamp(&public(vec![]), of(vec![]))), Error::Missing(Argument::Data));
    let mut jagged = Arguments::new();
    jagged.insert("data", ValueProperties::Jagged(JaggedProperties { releasable: true }));
    assert_eq!(
        refused(clamp(&public(vec![]), jagged)),
        Error::PropertiesNotArray.within(Argument::Data)
    );
    assert_eq!(
        refused(clamp(&public(vec![]), of(vec![("data", data(DataType::F64, None))]))),
        Error::DataColumnsMissing
    );
    assert_eq!(
        refused(clamp(&public(vec![]), of(vec![("data", aggregated(bounded(&[0.], &[1.])))]))),
        Error::Aggregated
    );
    assert_eq!(
        refused(clamp(&public(vec![]), of(vec![("data", data(DataType::Bool, Some(1)))]))),
        Error::ClampNotNumeric
    );
}

#[test]
fn clamp_of_releasable_aggregated_data_is_accepted() {
    let mut released = aggregated(bounded(&[0.], &[1.]));
    released.releasable = true;
    let clamped = derived(clamp(&public(vec![]), of(vec![("data", released)])));
    assert!(clamped.aggregator.is_some());
}

#[test]
fn clamp_by_categories_adds_the_null_value() {
    let arguments = public(vec![
        ("categories", Value::Jagged(Jagged::I64(vec![Some(vec![1, 2])]))),
        ("null_value", Value::from(-1i64)),
    ]);
    let clamped = derived(clamp(&arguments, of(vec![("data", data(DataType::I64, Some(2)))])));
    assert_eq!(
        clamped.categories(),
        Ok(Jagged::I64(vec![Some(vec![1, 2, -1]), Some(vec![1, 2, -1])]))
    );
}

#[test]
fn clamp_by_categories_of_each_column_takes_the_null_of_each() {
    let arguments = public(vec![
        (
            "categories",
            Value::Jagged(Jagged::Str(vec![
                Some(vec!["a".to_string()]),
                Some(vec!["b".to_string(), "c".to_string()]),
            ])),
        ),
        (
            "null_value",
            Value::from(NdArray::vector(vec!["x".to_string(), "y".to_string()])),
        ),
    ]);
    let clamped = derived(clamp(&arguments, of(vec![("data", data(DataType::Str, Some(2)))])));
    assert_eq!(
        clamped.categories(),
        Ok(Jagged::Str(vec![
            Some(vec!["a".to_string(), "x".to_string()]),
            Some(vec!["b".to_string(), "c".to_string(), "y".to_string()]),
        ]))
    );
}

#[test]
fn clamp_by_categories_needs_a_fitting_null_value() {
    let categories = || Value::Jagged(Jagged::I64(vec![Some(vec![1, 2])]));
    let properties = || of(vec![("data", data(DataType::I64, Some(2)))]);
    assert_eq!(
        refused(clamp(&public(vec![("categories", categories())]), properties())),
        Error::NullValueUndefined
    );
    assert_eq!(
        refused(clamp(
            &public(vec![("categories", categories()), ("null_value", Value::from(true))]),
            properties()
        )),
        Error::NullValueType
    );
    assert_eq!(
        refused(clamp(
            &public(vec![("categories", categories()), ("null_value", categories())]),
            properties()
        )),
        Error::ValueNotArray
    );
    assert_eq!(
        refused(clamp(
            &public(vec![("categories", Value::from(1i64)), ("null_value", Value::from(1i64))]),
            properties()
        )),
        Error::ValueNotJagged
    );
    assert_eq!(
        refused(clamp(
            &public(vec![
                ("categories", categories()),
                ("null_value", Value::from(NdArray::vector(vec![1i64, 2, 3])))
            ]),
            properties()
        )),
        Error::NullLength
    );
    assert_eq!(
        refused(clamp(
            &public(vec![
                ("categories", categories()),
                ("null_value", Value::from(NdArray::vector(Vec::<i64>::new())))
            ]),
            properties()
        )),
        Error::NullEmpty
    );
    assert_eq!(
        refused(clamp(
            &public(vec![
                ("categories", Value::Jagged(Jagged::F64(vec![Some(vec![float(1.)])]))),
                ("null_value", Value::from(float(0.)))
            ]),
            properties()
        )),
        Error::FloatCategorical
    );
}

#[test]
fn transformations_keep_the_data_set() {
    let arguments =
        public(vec![("lower", Value::from(float(0.))), ("upper", Value::from(float(10.)))]);
    let properties = || of(vec![("data", bounded(&[1.], &[5.]))]);
    assert_eq!(derived(clamp(&arguments, properties())).dataset_id, Some(7));
    assert_eq!(derived(impute(&arguments, properties())).dataset_id, Some(7));
    assert_eq!(derived(resize(&arguments, properties())).dataset_id, Some(7));
    assert_eq!(derived(cast("float", &arguments, properties())).dataset_id, Some(7));
}

#[test]
fn impute_passes_integers_on() {
    let mut integers = data(DataType::I64, None);
    integers.nullity = false;
    let imputed = derived(impute(&public(vec![]), of(vec![("data", integers)])));
    assert_eq!(imputed.data_type, DataType::I64);
    assert!(imputed.nature.is_none());
    assert_eq!(
        refused(impute(&public(vec![]), of(vec![("data", data(DataType::I64, Some(1)))]))),
        Error::IntegerNullity
    );
}

#[test]
fn impute_widens_to_the_bounds_of_the_data() {
    let arguments =
        public(vec![("lower", Value::from(float(2.))), ("upper", Value::from(float(20.)))]);
    let mut known_data = data(DataType::F64, Some(3));
    known_data.nature = Some(Nature::Continuous(NatureContinuous {
        lower: partly(&[Some(0.), Some(5.), None]),
        upper: partly(&[Some(10.), Some(30.), Some(1.)]),
    }));
    let imputed = derived(impute(&arguments, of(vec![("data", known_data)])));
    assert_eq!(
        float_bounds(&imputed),
        (vec![Some(0.), Some(2.), None], vec![Some(20.), Some(30.), Some(20.)])
    );
    assert!(!imputed.nullity);
}

#[test]
fn impute_of_unbounded_data_knows_no_bound() {
    let arguments =
        public(vec![("lower", Value::from(float(2.))), ("upper", Value::from(float(20.)))]);
    let imputed = derived(impute(&arguments, of(vec![("data", data(DataType::F64, Some(2)))])));
    assert_eq!(float_bounds(&imputed), (vec![None, None], vec![None, None]));
}

#[test]
fn impute_refuses_what_it_cannot_work_on() {
    let bounds =
        || public(vec![("lower", Value::from(float(2.))), ("upper", Value::from(float(1.)))]);
    assert_eq!(refused(impute(&bounds(), of(vec![]))), Error::Missing(Argument::Data));
    assert_eq!(
        refused(impute(&bounds(), of(vec![("data", data(DataType::F64, Some(1)))]))),
        Error::BoundsInverted
    );
    assert_eq!(
        refused(impute(&bounds(), of(vec![("data", data(DataType::F64, None))]))),
        Error::DataColumnsMissing
    );
    assert_eq!(
        refused(impute(&bounds(), of(vec![("data", aggregated(data(DataType::F64, Some(1))))]))),
        Error::Aggregated
    );
}

#[test]
fn impute_among_categories_leaves_no_nature() {
    let words = |values: &[&str]| {
        Value::Jagged(Jagged::Str(vec![Some(values.iter().map(|v| v.to_string()).collect())]))
    };
    let arguments =
        public(vec![("categories", words(&["a", "b"])), ("null_values", words(&["z"]))]);
    let mut known_data = data(DataType::Str, Some(1));
    known_data.nature = Some(Nature::Categorical(NatureCategorical {
        categories: Jagged::Str(vec![Some(vec!["a".to_string()])]),
    }));
    let imputed = derived(impute(&arguments, of(vec![("data", known_data)])));
    assert!(imputed.nature.is_none());
    let properties = || of(vec![("data", data(DataType::Str, Some(1)))]);
    assert_eq!(
        refused(impute(&public(vec![("categories", words(&["a"]))]), properties())),
        Error::Missing(Argument::NullValues)
    );
    assert_eq!(
        refused(impute(
            &public(vec![("categories", Value::Jagged(Jagged::I64(vec![])))]),
            properties()
        )),
        Error::CategoriesType
    );
    assert_eq!(
        refused(impute(
            &public(vec![
                ("categories", words(&["a"])),
                ("null_values", Value::Jagged(Jagged::I64(vec![])))
            ]),
            properties()
        )),
        Error::NullValuesType
    );
    assert_eq!(
        refused(impute(&public(vec![("categories", Value::from(1i64))]), properties())),
        Error::ValueNotJagged
    );
}

#[test]
fn resize_sets_rows_and_columns() {
    let arguments = public(vec![
        ("number_columns", Value::from(3i64)),
        ("number_rows", Value::from(50i64)),
        ("lower", Value::from(float(0.))),
        ("upper", Value::from(float(1.))),
    ]);
    let mut unknown = data(DataType::F64, None);
    unknown.is_not_empty = false;
    unknown.dimensionality = 1;
    let resized = derived(resize(&arguments, of(vec![("data", unknown)])));
    assert_eq!(resized.num_columns, Some(3));
    assert_eq!(resized.num_records, Some(50));
    assert!(resized.is_not_empty);
    assert_eq!(resized.dimensionality, 2);
    assert_eq!(resized.c_stability, vec![float(1.); 3]);
    assert_eq!(float_bounds(&resized), (vec![None; 3], vec![None; 3]));
}

#[test]
fn resize_widens_like_imputation() {
    let arguments = public(vec![
        ("number_rows", Value::from(10i64)),
        ("lower", Value::from(float(2.))),
        ("upper", Value::from(float(20.))),
    ]);
    let resized = derived(resize(&arguments, of(vec![("data", bounded(&[0.], &[10.]))])));
    assert_eq!(float_bounds(&resized), (vec![Some(0.)], vec![Some(20.)]));
    assert_eq!(resized.num_records, Some(10));
    let mut integers = data(DataType::I64, Some(1));
    integers.nature = Some(Nature::Continuous(NatureContinuous {
        lower: whole(&[5]),
        upper: whole(&[6]),
    }));
    let arguments = public(vec![("lower", Value::from(0i64)), ("upper", Value::from(9i64))]);
    let resized = derived(resize(&arguments, of(vec![("data", integers)])));
    assert_eq!(resized.lower_i64(), Ok(vec![0]));
    assert_eq!(resized.upper_i64(), Ok(vec![9]));
}

#[test]
fn resize_with_a_minimum_of_rows_is_not_empty() {
    let arguments = public(vec![
        ("minimum_rows", Value::from(5i64)),
        ("lower", Value::from(float(0.))),
        ("upper", Value::from(float(1.))),
    ]);
    let mut empty = data(DataType::F64, Some(1));
    empty.is_not_empty = false;
    empty.num_records = None;
    let resized = derived(resize(&arguments, of(vec![("data", empty)])));
    assert!(resized.is_not_empty);
    assert_eq!(resized.num_records, None);
}

#[test]
fn resize_refuses_what_it_cannot_work_on() {
    let plain = || of(vec![("data", data(DataType::F64, Some(1)))]);
    let with = |name: &str, value: Value| public(vec![(name, value)]);
    assert_eq!(refused(resize(&public(vec![]), of(vec![]))), Error::Missing(Argument::Data));
    assert_eq!(
        refused(resize(
            &public(vec![]),
            of(vec![
                ("data", data(DataType::F64, Some(1))),
                ("number_rows", data(DataType::I64, Some(1))),
                ("minimum_rows", data(DataType::I64, Some(1))),
            ])
        )),
        Error::RowsOverdetermined
    );
    assert_eq!(
        refused(resize(&with("number_columns", Value::from(2i64)), plain())),
        Error::ColumnsKnown
    );
    assert_eq!(
        refused(resize(
            &with("number_columns", Value::from(0i64)),
            of(vec![("data", data(DataType::F64, None))])
        )),
        Error::NumberColumns
    );
    assert_eq!(
        refused(resize(&with("number_rows", Value::from(0i64)), plain())),
        Error::NumberRows
    );
    assert_eq!(
        refused(resize(&with("number_rows", Value::from(float(2.))), plain())),
        Error::NotNumeric
    );
    assert_eq!(
        refused(resize(&with("minimum_rows", Value::from(0i64)), plain())),
        Error::MinimumRows
    );
    assert_eq!(
        refused(resize(&public(vec![]), of(vec![("data", data(DataType::F64, None))]))),
        Error::ColumnsUnknown
    );
    assert_eq!(
        refused(resize(&public(vec![]), of(vec![("data", data(DataType::Bool, Some(1)))]))),
        Error::ImputeNotNumeric
    );
    assert_eq!(
        refused(resize(
            &public(vec![]),
            of(vec![("data", aggregated(data(DataType::F64, Some(1))))])
        )),
        Error::Aggregated
    );
}

#[test]
fn resize_among_categories_is_refused_for_floats() {
    let categories = Value::Jagged(Jagged::F64(vec![Some(vec![float(1.)])]));
    assert_eq!(
        refused(resize(
            &public(vec![("categories", categories)]),
            of(vec![("data", data(DataType::F64, Some(1)))])
        )),
        Error::FloatCategorical
    );
    let categories = Value::Jagged(Jagged::I64(vec![Some(vec![1])]));
    assert_eq!(
        refused(resize(
            &public(vec![("categories", categories)]),
            of(vec![("data", data(DataType::F64, Some(1)))])
        )),
        Error::CategoriesType
    );
    let categories = Value::Jagged(Jagged::I64(vec![Some(vec![1])]));
    let resized = derived(resize(
        &public(vec![("categories", categories)]),
        of(vec![("data", data(DataType::I64, Some(1)))]),
    ));
    assert!(resized.nature.is_none());
}

#[test]
fn atomic_types_are_read_from_their_names() {
    let parse = |name: &str| parse_atomic_type(&name.to_string());
    assert_eq!(parse("float"), Ok(DataType::F64));
    assert_eq!(parse("real"), Ok(DataType::F64));
    assert_eq!(parse("int"), Ok(DataType::I64));
    assert_eq!(parse("integer"), Ok(DataType::I64));
    assert_eq!(parse("bool"), Ok(DataType::Bool));
    assert_eq!(parse("string"), Ok(DataType::Str));
    assert_eq!(parse("str"), Ok(DataType::Str));
    assert_eq!(parse("Float"), Err(Error::UnrecognizedType));
    assert_eq!(parse(""), Err(Error::UnrecognizedType));
}

#[test]
fn cast_reads_the_type_in_any_case() {
    let properties = || of(vec![("data", data(DataType::I64, Some(1)))]);
    assert_eq!(derived(cast("FLOAT", &public(vec![]), properties())).data_type, DataType::F64);
    assert_eq!(derived(cast("Real", &public(vec![]), properties())).data_type, DataType::F64);
    assert_eq!(derived(cast("STR", &public(vec![]), properties())).data_type, DataType::Str);
    assert_eq!(refused(cast("double", &public(vec![]), properties())), Error::UnrecognizedType);
}

#[test]
fn cast_to_float_knows_no_nature() {
    let from = |data_type: DataType, nullity: bool| {
        let mut properties = bounded(&[0.], &[1.]);
        properties.data_type = data_type;
        properties.nullity = nullity;
        derived(cast("float", &public(vec![]), of(vec![("data", properties)])))
    };
    assert!(from(DataType::F64, true).nature.is_none());
    assert!(from(DataType::F64, true).nullity);
    assert!(!from(DataType::F64, false).nullity);
    assert!(!from(DataType::Bool, true).nullity);
    assert!(from(DataType::I64, false).nullity);
    assert!(from(DataType::Str, false).nullity);
}

#[test]
fn cast_to_integer_needs_bounds() {
    let bounds = public(vec![("lower", Value::from(0i64)), ("upper", Value::from(10i64))]);
    let casted = derived(cast("int", &bounds, of(vec![("data", bounded(&[0.5], &[1.5]))])));
    assert_eq!(casted.data_type, DataType::I64);
    assert!(casted.nature.is_none());
    assert!(!casted.nullity);
    let properties = || of(vec![("data", data(DataType::F64, Some(1)))]);
    assert_eq!(refused(cast("int", &public(vec![]), properties())), Error::Missing(Argument::Lower));
    assert_eq!(
        refused(cast("int", &public(vec![("lower", Value::from(0i64))]), properties())),
        Error::Missing(Argument::Upper)
    );
    assert_eq!(
        refused(cast("int", &public(vec![("lower", Value::from(float(0.)))]), properties())),
        Error::NotNumeric.within(Argument::Type)
    );
    assert_eq!(
        refused(cast(
            "int",
            &public(vec![
                ("lower", Value::from(0i64)),
                ("upper", Value::from(NdArray::vector(vec![1i64, 2])))
            ]),
            properties()
        )),
        Error::NotScalar.within(Argument::Type)
    );
    assert_eq!(
        refused(cast(
            "int",
            &public(vec![("lower", Value::Jagged(Jagged::I64(vec![])))]),
            properties()
        )),
        Error::ValueNotArray
    );
}

#[test]
fn cast_to_bool_labels_the_categories() {
    let mut categorical = data(DataType::I64, Some(2));
    categorical.nature = Some(Nature::Categorical(NatureCategorical {
        categories: Jagged::I64(vec![Some(vec![1, 2, 1, 3]), None, Some(vec![1])]),
    }));
    let arguments = public(vec![("true_label", Value::from(1i64))]);
    let casted = derived(cast("bool", &arguments, of(vec![("data", categorical)])));
    assert_eq!(casted.data_type, DataType::Bool);
    assert!(!casted.nullity);
    assert_eq!(
        casted.categories(),
        Ok(Jagged::Bool(vec![Some(vec![true, false]), None, Some(vec![true])]))
    );
}

#[test]
fn cast_to_bool_compares_floats_by_value() {
    let mut categorical = data(DataType::F64, Some(1));
    categorical.nature = Some(Nature::Categorical(NatureCategorical {
        categories: Jagged::F64(vec![Some(vec![float(-0.0), float(f64::NAN), float(1.)])]),
    }));
    let arguments = public(vec![("true_label", Value::from(float(0.0)))]);
    let casted = derived(cast("bool", &arguments, of(vec![("data", categorical)])));
    assert_eq!(casted.categories(), Ok(Jagged::Bool(vec![Some(vec![true, false])])));
}

#[test]
fn cast_to_bool_without_categories_allows_both() {
    let arguments = public(vec![("true_label", Value::from(1i64))]);
    let casted = derived(cast("bool", &arguments, of(vec![("data", bounded(&[0., 0.], &[1., 1.]))])));
    assert_eq!(
        casted.categories(),
        Ok(Jagged::Bool(vec![Some(vec![true, false]), Some(vec![true, false])]))
    );
    let casted = derived(cast("bool", &arguments, of(vec![("data", data(DataType::F64, None))])));
    assert!(casted.nature.is_none());
}

#[test]
fn cast_to_bool_needs_a_fitting_label() {
    let mut categorical = data(DataType::I64, Some(1));
    categorical.nature = Some(Nature::Categorical(NatureCategorical {
        categories: Jagged::I64(vec![Some(vec![1])]),
    }));
    assert_eq!(
        refused(cast(
            "bool",
            &public(vec![("true_label", Value::from(true))]),
            of(vec![("data", categorical)])
        )),
        Error::TrueLabelType
    );
    assert_eq!(
        refused(cast("bool", &public(vec![]), of(vec![("data", data(DataType::I64, Some(1)))]))),
        Error::Missing(Argument::TrueLabel)
    );
    assert_eq!(
        refused(cast(
            "bool",
            &public(vec![("true_label", Value::Jagged(Jagged::I64(vec![])))]),
            of(vec![("data", data(DataType::I64, Some(1)))])
        )),
        Error::ValueNotArray
    );
}

#[test]
fn cast_to_string_writes_the_categories_out() {
    let with = |categories: Jagged| {
        let mut categorical = data(DataType::I64, Some(1));
        categorical.nature = Some(Nature::Categorical(NatureCategorical { categories }));
        derived(cast("string", &public(vec![]), of(vec![("data", categorical)])))
    };
    assert_eq!(
        with(Jagged::I64(vec![Some(vec![10, -3, 10, 0]), None])).categories(),
        Ok(Jagged::Str(vec![
            Some(vec!["10".to_string(), "-3".to_string(), "0".to_string()]),
            None
        ]))
    );
    assert_eq!(
        with(Jagged::I64(vec![Some(vec![i64::MIN, i64::MAX])])).categories(),
        Ok(Jagged::Str(vec![Some(vec![
            "-9223372036854775808".to_string(),
            "9223372036854775807".to_string()
        ])]))
    );
    assert_eq!(
        with(Jagged::Bool(vec![Some(vec![true, false, true])])).categories(),
        Ok(Jagged::Str(vec![Some(vec!["true".to_string(), "false".to_string()])]))
    );
    assert_eq!(
        with(Jagged::Str(vec![Some(vec!["a".to_string()])])).categories(),
        Ok(Jagged::Str(vec![Some(vec!["a".to_string()])]))
    );
    assert!(with(Jagged::F64(vec![Some(vec![float(1.)])])).nature.is_none());
    let casted = derived(cast("string", &public(vec![]), of(vec![("data", bounded(&[0.], &[1.]))])));
    assert!(casted.nature.is_none());
    assert!(!casted.nullity);
}

#[test]
fn cast_refuses_aggregated_data() {
    let mut released = aggregated(data(DataType::F64, Some(1)));
    released.releasable = true;
    assert_eq!(
        refused(cast("float", &public(vec![]), of(vec![("data", released)]))),
        Error::Aggregated
    );
    assert_eq!(refused(cast("float", &public(vec![]), of(vec![]))), Error::Missing(Argument::Data));
}

#[test]
fn sum_is_one_record_of_the_data() {
    let summed = derived(Sum {}.propagate_property(
        &None,
        &public(vec![]),
        of(vec![("data", bounded(&[0., 1.], &[5., 6.]))]),
        9,
        &arithmetic,
    ));
    assert_eq!(summed.num_records, Some(1));
    assert_eq!(summed.num_columns, Some(2));
    assert_eq!(summed.dataset_id, Some(7));
    assert!(summed.nature.is_none());
    let aggregator = summed.aggregator.unwrap();
    assert!(matches!(aggregator.component, Variant::Sum(_)));
    assert!(aggregator.properties.contains_key("data"));
    match &aggregator.lipschitz_constants {
        Value::Array(Array::F64(constants)) => {
            assert_eq!(constants.shape(), &vec![1, 2]);
            assert_eq!(constants.items(), &vec![float(1.), float(1.)]);
        },
        other => panic!("unexpected {:?}", other),
    }
}

#[test]
fn sum_refuses_what_it_cannot_work_on() {
    let sum = |properties: NodeProperties| {
        refused(Sum {}.propagate_property(&None, &public(vec![]), properties, 9, &arithmetic))
    };
    assert_eq!(sum(of(vec![])), Error::Missing(Argument::Data));
    assert_eq!(sum(of(vec![("data", aggregated(data(DataType::F64, Some(1))))])), Error::Aggregated);
    assert_eq!(sum(of(vec![("data", data(DataType::F64, None))])), Error::ColumnsUnknown);
    assert_eq!(
        sum(of(vec![("data", data(DataType::Str, Some(1)))])),
        Error::NotNumericData(Argument::Data)
    );
}

#[test]
fn quantile_is_one_record_or_a_matrix_of_scores() {
    let quantile = Quantile { alpha: float(0.5), interpolation: "midpoint".to_string() };
    let result = derived(quantile.propagate_property(
        &None,
        &public(vec![]),
        of(vec![("data", bounded(&[0.], &[5.]))]),
        9,
        &arithmetic,
    ));
    assert_eq!(result.num_records, Some(1));
    assert!(result.nature.is_none());
    match result.aggregator.unwrap().component {
        Variant::Quantile(kept) => {
            assert_eq!(kept.alpha, float(0.5));
            assert_eq!(kept.interpolation, "midpoint");
        },
        other => panic!("unexpected {:?}", other),
    }
    let candidates = Value::Jagged(Jagged::F64(vec![Some(vec![float(1.), float(2.)])]));
    let scores = quantile
        .propagate_property(
            &None,
            &public(vec![("candidates", candidates)]),
            of(vec![("data", bounded(&[0.], &[5.]))]),
            9,
            &arithmetic,
        )
        .unwrap();
    assert!(matches!(
        scores.value,
        ValueProperties::Jagged(JaggedProperties { releasable: false })
    ));
}

#[test]
fn quantile_refuses_what_it_cannot_work_on() {
    let quantile = Quantile { alpha: float(0.5), interpolation: "midpoint".to_string() };
    let run = |arguments: Arguments<Value>, properties: NodeProperties| {
        refused(quantile.propagate_property(&None, &arguments, properties, 9, &arithmetic))
    };
    let mut empty = data(DataType::F64, Some(1));
    empty.is_not_empty = false;
    assert_eq!(run(public(vec![]), of(vec![("data", empty)])), Error::Empty);
    assert_eq!(
        run(public(vec![]), of(vec![("data", data(DataType::Bool, Some(1)))])),
        Error::NotNumericData(Argument::Data)
    );
    assert_eq!(
        run(public(vec![]), of(vec![("data", data(DataType::F64, None))])),
        Error::ColumnsUnknown
    );
    assert_eq!(
        run(
            public(vec![("candidates", Value::Jagged(Jagged::I64(vec![])))]),
            of(vec![("data", data(DataType::F64, Some(1)))])
        ),
        Error::CandidatesType
    );
    assert_eq!(
        run(
            public(vec![("candidates", Value::from(1i64))]),
            of(vec![("data", data(DataType::F64, Some(1)))])
        ),
        Error::ValueNotJagged
    );
}

#[test]
fn variance_is_bounded_by_a_quarter_of_the_squared_range() {
    let variance = Variance { finite_sample_correction: true };
    let result = derived(variance.propagate_property(
        &None,
        &public(vec![]),
        of(vec![("data", bounded(&[0., -1.], &[10., 1.]))]),
        21,
        &arithmetic,
    ));
    assert_eq!(float_bounds(&result), (vec![Some(0.), Some(0.)], vec![Some(25.), Some(1.)]));
    assert_eq!(result.num_records, Some(1));
    assert_eq!(result.num_columns, Some(2));
    assert_eq!(result.dataset_id, Some(21));
    assert!(matches!(
        result.aggregator.unwrap().component,
        Variant::Variance(Variance { finite_sample_correction: true })
    ));
    let unbounded = derived(variance.propagate_property(
        &None,
        &public(vec![]),
        of(vec![("data", data(DataType::F64, Some(1)))]),
        21,
        &arithmetic,
    ));
    assert!(unbounded.nature.is_none());
}

#[test]
fn variance_refuses_what_it_cannot_work_on() {
    let variance = Variance { finite_sample_correction: false };
    let run = |properties: NodeProperties| {
        refused(variance.propagate_property(&None, &public(vec![]), properties, 9, &arithmetic))
    };
    let mut empty = data(DataType::F64, Some(1));
    empty.is_not_empty = false;
    assert_eq!(run(of(vec![])), Error::Missing(Argument::Data));
    assert_eq!(run(of(vec![("data", empty)])), Error::Empty);
    assert_eq!(run(of(vec![("data", data(DataType::F64, None))])), Error::ColumnsUnknown);
    assert_eq!(
        run(of(vec![("data", data(DataType::I64, Some(1)))])),
        Error::NotFloat(Argument::Data)
    );
    assert_eq!(run(of(vec![("data", aggregated(data(DataType::F64, Some(1))))])), Error::Aggregated);
}

#[test]
fn covariance_of_data_fills_the_upper_triangle() {
    let covariance = Covariance { finite_sample_correction: true };
    let result = derived(covariance.propagate_property(
        &None,
        &public(vec![]),
        of(vec![("data", bounded(&[0., 0., 1.], &[10., 2., 2.]))]),
        30,
        &arithmetic,
    ));
    assert_eq!(result.num_columns, Some(6));
    assert_eq!(result.num_records, Some(1));
    assert_eq!(result.dataset_id, Some(30));
    let (lower, upper) = float_bounds(&result);
    assert_eq!(
        upper,
        vec![Some(25.), Some(5.), Some(2.5), Some(1.), Some(0.5), Some(0.25)]
    );
    assert_eq!(
        lower,
        vec![Some(-25.), Some(-5.), Some(-2.5), Some(-1.), Some(-0.5), Some(-0.25)]
    );
    match &result.aggregator.as_ref().unwrap().lipschitz_constants {
        Value::Array(Array::F64(constants)) => assert_eq!(constants.shape(), &vec![1, 6]),
        other => panic!("unexpected {:?}", other),
    }
}

#[test]
fn covariance_between_data_sets_fills_the_whole_matrix() {
    let covariance = Covariance { finite_sample_correction: false };
    let mut right = bounded(&[0., -1., 0.], &[4., 1., 8.]);
    right.c_stability = vec![float(1.), float(1.)];
    right.releasable = true;
    let result = derived(covariance.propagate_property(
        &None,
        &public(vec![]),
        of(vec![("left", bounded(&[0., 0.], &[10., 2.])), ("right", right)]),
        30,
        &arithmetic,
    ));
    assert_eq!(result.num_columns, Some(6));
    assert!(!result.releasable);
    let (_, upper) = float_bounds(&result);
    assert_eq!(upper, vec![Some(10.), Some(5.), Some(20.), Some(2.), Some(1.), Some(4.)]);
}

#[test]
fn covariance_between_different_data_sets_fails() {
    let covariance = Covariance { finite_sample_correction: false };
    let run = |properties: NodeProperties| {
        refused(covariance.propagate_property(&None, &public(vec![]), properties, 9, &arithmetic))
    };
    let mut other = bounded(&[0.], &[1.]);
    other.dataset_id = Some(8);
    assert_eq!(
        run(of(vec![("left", bounded(&[0.], &[1.])), ("right", other)])),
        Error::DatasetMismatch
    );
    let mut unstable = bounded(&[0.], &[1.]);
    unstable.c_stability = vec![float(2.)];
    assert_eq!(
        run(of(vec![("left", bounded(&[0.], &[1.])), ("right", unstable)])),
        Error::StabilityMismatch
    );
    assert_eq!(run(of(vec![("left", bounded(&[0.], &[1.]))])), Error::CovarianceArguments);
    assert_eq!(
        run(of(vec![("left", data(DataType::I64, Some(1))), ("right", bounded(&[0.], &[1.]))])),
        Error::NotFloat(Argument::Left)
    );
    assert_eq!(
        run(of(vec![("left", bounded(&[0.], &[1.])), ("right", data(DataType::I64, Some(1)))])),
        Error::NotFloat(Argument::Right)
    );
    assert_eq!(
        run(of(vec![("data", data(DataType::I64, Some(1)))])),
        Error::NotFloat(Argument::Data)
    );
    let wide = |num_columns: i64| {
        let mut properties = data(DataType::F64, Some(1));
        properties.num_columns = Some(num_columns);
        properties
    };
    assert_eq!(run(of(vec![("data", wide(i64::MAX))])), Error::ColumnsOverflow);
    assert_eq!(run(of(vec![("data", wide(1 << 32))])), Error::ColumnsOverflow);
    assert_eq!(
        run(of(vec![("left", wide(i64::MAX)), ("right", wide(2))])),
        Error::ColumnsOverflow
    );
}

#[test]
fn component_hands_on_to_its_variant() {
    let clamp_node = Node {
        arguments: Arguments::new(),
        variant: Some(Variant::Clamp(Clamp {})),
        omit: false,
        submission: 0,
    };
    let arguments = public(vec![("lower", floats(&[0.0])), ("upper", floats(&[-1.0]))]);
    let properties = of(vec![("data", data(DataType::F64, Some(1)))]);
    assert_eq!(
        refused(clamp_node.propagate_property(&None, &arguments, properties, 1, &arithmetic)),
        Error::BoundsInverted.at_node(VariantKind::Clamp)
    );
    let properties = of(vec![("data", data(DataType::F64, Some(1)))]);
    let arguments =
        public(vec![("lower", Value::from(float(0.))), ("upper", Value::from(float(1.)))]);
    let clamped =
        derived(clamp_node.propagate_property(&None, &arguments, properties, 1, &arithmetic));
    assert_eq!(float_bounds(&clamped), (vec![Some(0.)], vec![Some(1.)]));
    let index = Node {
        arguments: Arguments::new(),
        variant: Some(Variant::Index(Index {})),
        omit: false,
        submission: 0,
    };
    assert_eq!(
        refused(index.propagate_property(&None, &public(vec![]), of(vec![]), 1, &arithmetic)),
        Error::CapabilityMissing(Capability::Propagation, VariantKind::Index)
    );
    let blank = Node { arguments: Arguments::new(), variant: None, omit: false, submission: 0 };
    assert_eq!(
        refused(blank.propagate_property(&None, &public(vec![]), of(vec![]), 1, &arithmetic)),
        Error::VariantUndefined
    );
}

#[test]
fn partitioned_data_is_no_array() {
    let mut properties = Arguments::new();
    properties.insert(
        "data",
        ValueProperties::Hashmap(HashmapProperties {
            num_records: None,
            disjoint: true,
            properties: Hashmap::Bool(vec![]),
            columnar: false,
        }),
    );
    assert_eq!(
        refused(clamp(&public(vec![]), properties)),
        Error::PropertiesNotArray.within(Argument::Data)
    );
}
