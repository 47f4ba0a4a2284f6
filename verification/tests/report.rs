use whitenoise_validator::array::NdArray;
use whitenoise_validator::base::{
    Arguments, Array, ArrayProperties, DataType, Nature, NatureContinuous, NodeProperties, Value,
    ValueProperties, Vector1DNull,
};
use whitenoise_validator::components::{Accuracy, Mechanism, Named, Report};
use whitenoise_validator::errors::{Argument, Bound, Capability, Error};
use whitenoise_validator::float::{Float, Operation};
use whitenoise_validator::proto::{
    Accuracies, Component, DpMaximum, PrivacyDefinition, PrivacyUsage, Sum, Variant, VariantKind,
};
use whitenoise_validator::report::{get_ith_column, spread_privacy_usage};

fn float(value: f64) -> Float {
    Float::from_bits(value.to_bits())
}

fn number(value: Float) -> f64 {
    f64::from_bits(value.to_bits())
}

fn arithmetic(operation: Operation) -> Float {
    match operation {
        Operation::Add(a, b) => float(number(a) + number(b)),
        Operation::Subtract(a, b) => float(number(a) - number(b)),
        Operation::Multiply(a, b) => float(number(a) * number(b)),
        Operation::Divide(a, b) => float(number(a) / number(b)),
        Operation::FromInteger(n) => float(n as f64),
    }
}

fn usage(epsilon: f64, delta: f64) -> PrivacyUsage {
    PrivacyUsage { epsilon: float(epsilon), delta: float(delta) }
}

fn bounded(lower: &[f64], upper: &[f64], num_columns: Option<i64>) -> NodeProperties {
    let mut properties = Arguments::new();
    properties.insert(
        "data",
        ValueProperties::Array(ArrayProperties {
            num_records: Some(10),
            num_columns,
            nullity: false,
            releasable: false,
            c_stability: vec![],
            aggregator: None,
            nature: Some(Nature::Continuous(NatureContinuous {
                lower: Vector1DNull::F64(lower.iter().map(|v| Some(float(*v))).collect()),
                upper: Vector1DNull::F64(upper.iter().map(|v| Some(float(*v))).collect()),
            })),
            data_type: DataType::F64,
            dataset_id: None,
            is_not_empty: true,
            dimensionality: 2,
        }),
    );
    properties
}

fn node(variant: Option<Variant>) -> Component {
    Component { arguments: Arguments::new(), variant, omit: false, submission: 3 }
}

fn definition() -> PrivacyDefinition {
    PrivacyDefinition {
        group_size: 1,
        neighboring: 1,
        strict_parameter_checks: false,
        protect_overflow: false,
        protect_elapsed_time: false,
        protect_memory_utilization: false,
        protect_floating_point: false,
    }
}

#[test]
fn usage_is_spread_evenly_over_the_columns() {
    let spread = spread_privacy_usage(&vec![usage(1., 0.5)], 4, &arithmetic).unwrap();
    assert_eq!(spread, vec![usage(0.25, 0.125); 4]);
    let given = vec![usage(1., 0.), usage(2., 0.)];
    assert_eq!(spread_privacy_usage(&given, 2, &arithmetic), Ok(given.clone()));
    assert_eq!(spread_privacy_usage(&given, 3, &arithmetic), Err(Error::UsageLength));
    assert_eq!(spread_privacy_usage(&vec![], 3, &arithmetic), Err(Error::UsageLength));
    assert_eq!(spread_privacy_usage(&vec![], 0, &arithmetic), Ok(vec![]));
    assert_eq!(spread_privacy_usage(&vec![usage(1., 0.)], 0, &arithmetic), Ok(vec![]));
    assert_eq!(
        spread_privacy_usage(&vec![usage(1., 0.)], 1, &arithmetic),
        Ok(vec![usage(1., 0.)])
    );
}

#[test]
fn column_of_a_release_is_selected() {
    let matrix = NdArray::new(vec![2, 3], vec![1i64, 2, 3, 4, 5, 6]).unwrap();
    assert_eq!(
        get_ith_column(&matrix, 1),
        Ok(NdArray::new(vec![2, 1], vec![2, 5]).unwrap())
    );
    assert_eq!(get_ith_column(&matrix, 3), Err(Error::Shape));
    let row = NdArray::row(vec![7i64, 8]);
    assert_eq!(get_ith_column(&row, 1), Ok(NdArray::scalar(8)));
    let vector = NdArray::vector(vec![7i64, 8]);
    assert_eq!(get_ith_column(&vector, 5), Ok(NdArray::vector(vec![7, 8])));
    let scalar = NdArray::scalar(7i64);
    assert_eq!(get_ith_column(&scalar, 0), Ok(NdArray::scalar(7)));
    assert_eq!(get_ith_column(&scalar, 1), Err(Error::Shape));
}

#[test]
fn private_maximum_is_summarized_by_column() {
    let maximum =
        DpMaximum { mechanism: "Laplace".to_string(), privacy_usage: vec![usage(1., 0.)] };
    let release = Value::from(NdArray::row(vec![float(9.5), float(3.5)]));
    let names = vec!["age".to_string()];
    let summaries = maximum
        .summarize(
            12,
            &node(None),
            &Arguments::new(),
            bounded(&[0., 1.], &[10., 4.], Some(2)),
            &release,
            Some(&names),
            &arithmetic,
        )
        .unwrap()
        .unwrap();
    assert_eq!(summaries.len(), 2);
    assert_eq!(summaries[0].description, "DP release information");
    assert_eq!(summaries[0].statistic, "DPMaximum");
    assert_eq!(summaries[0].variables, "age");
    assert_eq!(summaries[1].variables, "[Unknown]");
    assert_eq!(summaries[0].release_info, Value::from(float(9.5)));
    assert_eq!(summaries[1].release_info, Value::from(float(3.5)));
    assert_eq!(summaries[0].privacy_loss, usage(0.5, 0.));
    assert_eq!(summaries[1].privacy_loss, usage(0.5, 0.));
    assert_eq!(summaries[0].accuracy, None);
    assert_eq!(summaries[0].submission, 3);
    assert_eq!(summaries[1].node_id, 12);
    assert!(!summaries[0].postprocess);
    assert_eq!(summaries[0].algorithm_info.mechanism, "Laplace");
    assert_eq!(summaries[0].algorithm_info.name, "");
    assert_eq!(summaries[0].algorithm_info.cite, "");
    assert_eq!(summaries[0].algorithm_info.lower_bound, float(0.));
    assert_eq!(summaries[0].algorithm_info.upper_bound, float(10.));
    assert_eq!(summaries[1].algorithm_info.lower_bound, float(1.));
    assert_eq!(summaries[1].algorithm_info.upper_bound, float(4.));
}

#[test]
fn summary_is_refused_where_it_has_no_ground() {
    let maximum =
        DpMaximum { mechanism: "Laplace".to_string(), privacy_usage: vec![usage(1., 0.)] };
    let run = |properties: NodeProperties, release: Value| {
        maximum
            .summarize(12, &node(None), &Arguments::new(), properties, &release, None, &arithmetic)
            .unwrap_err()
    };
    let release = || Value::from(NdArray::row(vec![float(9.5), float(3.5)]));
    assert_eq!(run(Arguments::new(), release()), Error::Missing(Argument::Data));
    assert_eq!(run(bounded(&[0.], &[1.], None), release()), Error::ColumnsUnknown);
    assert_eq!(
        run(bounded(&[0.], &[1., 2.], Some(2)), release()),
        Error::BoundUnknown(Bound::Lower)
    );
    assert_eq!(
        run(bounded(&[0., 1.], &[1.], Some(2)), release()),
        Error::BoundUnknown(Bound::Upper)
    );
    assert_eq!(run(bounded(&[0., 1., 2.], &[1., 2., 3.], Some(3)), release()), Error::Shape);
    assert_eq!(
        run(bounded(&[0.], &[1.], Some(1)), Value::from(true)),
        Error::ReleaseNotNumeric
    );
    let many = DpMaximum {
        mechanism: "Laplace".to_string(),
        privacy_usage: vec![usage(1., 0.), usage(1., 0.)],
    };
    assert_eq!(
        many.summarize(
            12,
            &node(None),
            &Arguments::new(),
            bounded(&[0.], &[1.], Some(1)),
            &release(),
            None,
            &arithmetic
        )
        .unwrap_err(),
        Error::UsageLength
    );
}

#[test]
fn integer_release_is_summarized() {
    let maximum = DpMaximum { mechanism: "x".to_string(), privacy_usage: vec![usage(1., 0.)] };
    let release = Value::from(NdArray::scalar(4i64));
    let summaries = maximum
        .summarize(
            1,
            &node(None),
            &Arguments::new(),
            bounded(&[0.], &[10.], Some(1)),
            &release,
            None,
            &arithmetic,
        )
        .unwrap()
        .unwrap();
    assert_eq!(summaries.len(), 1);
    assert_eq!(summaries[0].release_info, Value::from(4i64));
    assert_eq!(summaries[0].privacy_loss, usage(1., 0.));
}

#[test]
fn component_is_summarized_through_its_variant() {
    let maximum = Variant::DpMaximum(DpMaximum {
        mechanism: "Laplace".to_string(),
        privacy_usage: vec![usage(1., 0.)],
    });
    let component = node(Some(maximum));
    let release = Value::from(NdArray::scalar(float(4.)));
    let summaries = component
        .summarize(
            1,
            &component,
            &Arguments::new(),
            bounded(&[0.], &[10.], Some(1)),
            &release,
            None,
            &arithmetic,
        )
        .unwrap()
        .unwrap();
    assert_eq!(summaries.len(), 1);
    assert_eq!(
        component
            .summarize(1, &component, &Arguments::new(), Arguments::new(), &release, None, &arithmetic)
            .unwrap_err(),
        Error::Missing(Argument::Data).at_node(VariantKind::DpMaximum)
    );
    let sum = node(Some(Variant::Sum(Sum {})));
    assert_eq!(
        sum.summarize(1, &sum, &Arguments::new(), Arguments::new(), &release, None, &arithmetic),
        Ok(None)
    );
    let blank = node(None);
    assert_eq!(
        blank
            .summarize(1, &blank, &Arguments::new(), Arguments::new(), &release, None, &arithmetic)
            .unwrap_err(),
        Error::VariantUndefined
    );
}

#[test]
fn no_variant_spends_or_converts() {
    let sum = node(Some(Variant::Sum(Sum {})));
    let blank = node(None);
    let accuracies = Accuracies { values: vec![] };
    assert_eq!(sum.get_privacy_usage(&definition(), None, &Arguments::new()), Ok(None));
    assert_eq!(
        blank.get_privacy_usage(&definition(), None, &Arguments::new()),
        Err(Error::VariantUndefined)
    );
    assert_eq!(sum.accuracy_to_privacy_usage(&definition(), &Arguments::new(), &accuracies), Ok(None));
    assert_eq!(
        blank.accuracy_to_privacy_usage(&definition(), &Arguments::new(), &accuracies),
        Err(Error::VariantUndefined)
    );
    assert_eq!(sum.privacy_usage_to_accuracy(&definition(), &Arguments::new(), float(0.05)), Ok(None));
    assert_eq!(
        blank.privacy_usage_to_accuracy(&definition(), &Arguments::new(), float(0.05)),
        Err(Error::VariantUndefined)
    );
}

#[test]
fn names_pass_through_the_data() {
    let sum = node(Some(Variant::Sum(Sum {})));
    let mut variables = Arguments::new();
    variables.insert("other", vec!["x".to_string()]);
    assert_eq!(
        sum.get_names(&Arguments::new(), &variables, None),
        Err(Error::CapabilityMissing(Capability::Names, VariantKind::Sum))
    );
    variables.insert("data", vec!["a".to_string(), "b".to_string()]);
    assert_eq!(
        sum.get_names(&Arguments::new(), &variables, None),
        Ok(vec!["a".to_string(), "b".to_string()])
    );
    assert_eq!(
        node(None).get_names(&Arguments::new(), &variables, None),
        Err(Error::VariantUndefined)
    );
    let _ = Array::Bool(NdArray::scalar(true));
}
