use std::collections::BTreeMap;
use whitenoise_validator::array::NdArray;
use whitenoise_validator::base::{Arguments, Array, ReleaseNode, Value};
use whitenoise_validator::errors::{Capability, Error};
use whitenoise_validator::float::{Float, Operation};
use whitenoise_validator::graph::{ComputationGraph, Release};
use whitenoise_validator::privacy::{
    accuracy_to_privacy_usage, compute_privacy_usage, privacy_usage_to_accuracy,
    sum_privacy_usage,
};
use whitenoise_validator::proto::{
    Accuracies, Accuracy, Clamp, Component, Literal, PrivacyDefinition, PrivacyUsage, Sum,
    Variant, VariantKind,
};

fn float(value: f64) -> Float {
    Float::from_bits(value.to_bits())
}

fn number(value: Float) -> f64 {
    f64::from_bits(value.to_bits())
}

fn arithmetic(operation: Operation) -> Float {
    match operation {
        Operation::Add(a, b) => float(number(a) + number(b)),
        Operation::Subtract(a, b) => float(number(a) - number(b)),
        Operation::Multiply(a, b) => float(number(a) * number(b)),
        Operation::Divide(a, b) => float(number(a) / number(b)),
        Operation::FromInteger(n) => float(n as f64),
    }
}

fn usage(epsilon: f64, delta: f64) -> PrivacyUsage {
    PrivacyUsage { epsilon: float(epsilon), delta: float(delta) }
}

fn literal() -> Component {
    Component {
        arguments: Arguments::new(),
        variant: Some(Variant::Literal(Literal {})),
        omit: true,
        submission: 0,
    }
}

fn node(variant: Variant, arguments: &[(&str, u32)]) -> Component {
    let mut map = Arguments::new();
    for (name, id) in arguments {
        map.insert(name, *id);
    }
    Component { arguments: map, variant: Some(variant), omit: false, submission: 0 }
}

fn public(value: Value) -> ReleaseNode {
    ReleaseNode { value, privacy_usages: None, public: true }
}

fn scalar(value: f64) -> Value {
    Value::Array(Array::F64(NdArray::scalar(float(value))))
}

fn privacy_definition() -> PrivacyDefinition {
    PrivacyDefinition {
        group_size: 1,
        neighboring: 1,
        strict_parameter_checks: false,
        protect_overflow: false,
        protect_elapsed_time: false,
        protect_memory_utilization: false,
        protect_floating_point: false,
    }
}

fn clamped_analysis(lower: f64, upper: f64) -> (ComputationGraph, Release) {
    let mut graph: ComputationGraph = BTreeMap::new();
    let mut release: Release = BTreeMap::new();
    graph.insert(0, literal());
    let data = NdArray::new(vec![2, 1], vec![float(1.), float(5.)]).unwrap();
    release.insert(0, public(Value::Array(Array::F64(data))));
    graph.insert(1, literal());
    release.insert(1, public(scalar(lower)));
    graph.insert(2, literal());
    release.insert(2, public(scalar(upper)));
    graph.insert(3, node(Variant::Clamp(Clamp {}), &[("data", 0), ("lower", 1), ("upper", 2)]));
    graph.insert(4, node(Variant::Sum(Sum {}), &[("data", 3)]));
    (graph, release)
}

#[test]
fn usages_are_added_up_one_after_the_other() {
    assert_eq!(sum_privacy_usage(&vec![], &arithmetic), None);
    assert_eq!(sum_privacy_usage(&vec![usage(0.5, 0.25)], &arithmetic), Some(usage(0.5, 0.25)));
    assert_eq!(
        sum_privacy_usage(&vec![usage(0.5, 0.0), usage(1.0, 0.125), usage(0.25, 0.125)], &arithmetic),
        Some(usage(1.75, 0.25))
    );
    let order = sum_privacy_usage(&vec![usage(1e16, 0.), usage(1., 0.), usage(1., 0.)], &arithmetic);
    assert_eq!(order, Some(usage((1e16 + 1.) + 1., 0.)));
    assert_eq!(
        sum_privacy_usage(&vec![usage(-0.0, 0.0)], &arithmetic).unwrap().epsilon.to_bits(),
        (-0.0f64).to_bits()
    );
}

#[test]
fn a_valid_analysis_without_mechanisms_releases_nothing() {
    let (graph, release) = clamped_analysis(0., 10.);
    assert_eq!(
        compute_privacy_usage(privacy_definition(), graph, release, &arithmetic),
        Err(Error::NothingReleased)
    );
    assert_eq!(
        compute_privacy_usage(privacy_definition(), BTreeMap::new(), BTreeMap::new(), &arithmetic),
        Err(Error::NothingReleased)
    );
}

#[test]
fn the_usage_of_an_analysis_that_is_not_valid_is_refused() {
    let (graph, release) = clamped_analysis(0., -1.);
    match compute_privacy_usage(privacy_definition(), graph, release, &arithmetic) {
        Err(Error::NodeId(3, inner)) => assert_eq!(inner.cause(), &Error::BoundsInverted),
        other => panic!("unexpected {:?}", other),
    }
}

#[test]
fn components_without_conversion_are_refused() {
    let sum = node(Variant::Sum(Sum {}), &[("data", 0)]);
    let accuracies = Accuracies { values: vec![Accuracy { value: float(1.), alpha: float(0.05) }] };
    assert_eq!(
        accuracy_to_privacy_usage(&sum, &privacy_definition(), &Arguments::new(), &accuracies),
        Err(Error::CapabilityMissing(Capability::Accuracy, VariantKind::Sum))
    );
    assert_eq!(
        privacy_usage_to_accuracy(&sum, &privacy_definition(), &Arguments::new(), float(0.05)),
        Err(Error::CapabilityMissing(Capability::Accuracy, VariantKind::Sum))
    );
    let bare = Component { arguments: Arguments::new(), variant: None, omit: false, submission: 0 };
    assert_eq!(
        accuracy_to_privacy_usage(&bare, &privacy_definition(), &Arguments::new(), &accuracies),
        Err(Error::VariantUndefined)
    );
    assert_eq!(
        Error::CapabilityMissing(Capability::Accuracy, VariantKind::Sum).message(),
        "proto component Sum is missing its Accuracy trait"
    );
    assert_eq!(
        Error::NothingReleased.message(),
        "no information is released; privacy usage is none"
    );
}
