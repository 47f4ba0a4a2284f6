use whitenoise_validator::base::{
    Arguments, Array, ArrayProperties, DataType, Hashmap, HashmapProperties, Nature,
    NatureContinuous, NodeProperties, Value, ValueProperties, Vector1DNull,
};
use whitenoise_validator::components::expand::{replace_by, supply_bounds};
use whitenoise_validator::components::Expandable;
use whitenoise_validator::errors::{Argument, Bound, Error};
use whitenoise_validator::expansion::ComponentExpansion;
use whitenoise_validator::float::Float;
use whitenoise_validator::graph::expand_component;
use whitenoise_validator::proto::{
    Cast, Clamp, Component, DpMaximum, Impute, Index, Maximum, Median, Minimum, PrivacyUsage,
    Quantile, Resize, Sum, ToBool, ToFloat, ToInt, ToText, Union, Variant,
};
use whitenoise_validator::utilities::get_literal;

fn float(value: f64) -> Float {
    Float::from_bits(value.to_bits())
}

fn known(values: &[f64]) -> Vector1DNull {
    Vector1DNull::F64(values.iter().map(|v| Some(float(*v))).collect())
}

fn bounded(lower: &[f64], upper: &[f64]) -> ArrayProperties {
    ArrayProperties {
        num_records: Some(10),
        num_columns: Some(lower.len() as i64),
        nullity: false,
        releasable: false,
        c_stability: vec![float(1.); lower.len()],
        aggregator: None,
        nature: Some(Nature::Continuous(NatureContinuous {
            lower: known(lower),
            upper: known(upper),
        })),
        data_type: DataType::F64,
        dataset_id: None,
        is_not_empty: true,
        dimensionality: 2,
    }
}

fn of(entries: Vec<(&str, ArrayProperties)>) -> NodeProperties {
    let mut properties = Arguments::new();
    for (name, entry) in entries {
        properties.insert(name, ValueProperties::Array(entry));
    }
    properties
}

fn node(variant: Variant, arguments: &[(&str, u32)]) -> Component {
    let mut map = Arguments::new();
    for (name, id) in arguments {
        map.insert(name, *id);
    }
    Component { arguments: map, variant: Some(variant), omit: false, submission: 4 }
}

fn expand(component: &Component, properties: &NodeProperties) -> Result<ComponentExpansion, Error> {
    expand_component(&None, component, &Arguments::new(), properties, 5, 9)
}

fn is_empty(expansion: &ComponentExpansion) -> bool {
    expansion.computation_graph.is_empty()
        && expansion.properties.is_empty()
        && expansion.releases.is_empty()
        && expansion.traversal.is_empty()
        && expansion.warnings.is_empty()
}

fn vector(value: &Value) -> Vec<f64> {
    match value {
        Value::Array(Array::F64(array)) => {
            assert_eq!(array.ndim(), 1);
            array.items().iter().map(|v| f64::from_bits(v.to_bits())).collect()
        },
        other => panic!("unexpected {:?}", other),
    }
}

#[test]
fn literal_is_public_and_left_out() {
    let (component, release) = get_literal(Value::from(3i64), 6);
    assert!(matches!(component.variant, Some(Variant::Literal(_))));
    assert!(component.omit);
    assert_eq!(component.submission, 6);
    assert!(component.arguments.names().is_empty());
    assert!(release.public);
    assert!(release.privacy_usages.is_none());
    assert_eq!(release.value.first_i64(), Ok(3));
}

#[test]
fn clamp_is_supplied_with_the_bounds_of_the_data() {
    let component = node(Variant::Clamp(Clamp {}), &[("data", 2)]);
    let properties = of(vec![("data", bounded(&[0., 1.], &[5., 6.]))]);
    let expansion = expand(&component, &properties).unwrap();
    assert!(expansion.traversal.is_empty());
    assert_eq!(expansion.computation_graph.keys().copied().collect::<Vec<u32>>(), vec![5, 10, 11]);
    assert_eq!(expansion.releases.keys().copied().collect::<Vec<u32>>(), vec![10, 11]);
    assert_eq!(expansion.properties.keys().copied().collect::<Vec<u32>>(), vec![10, 11]);
    assert_eq!(vector(&expansion.releases[&10].value), vec![0., 1.]);
    assert_eq!(vector(&expansion.releases[&11].value), vec![5., 6.]);
    assert!(expansion.releases[&10].public);
    assert!(matches!(expansion.computation_graph[&10].variant, Some(Variant::Literal(_))));
    assert_eq!(expansion.computation_graph[&10].submission, 4);
    let rewritten = &expansion.computation_graph[&5];
    assert!(matches!(rewritten.variant, Some(Variant::Clamp(_))));
    assert_eq!(rewritten.arguments.get("data"), Some(&2));
    assert_eq!(rewritten.arguments.get("lower"), Some(&10));
    assert_eq!(rewritten.arguments.get("upper"), Some(&11));
    let inferred = expansion.properties[&10].array().unwrap();
    assert_eq!(inferred.num_records, Some(2));
    assert_eq!(inferred.num_columns, Some(1));
    assert_eq!(inferred.lower_f64(), Ok(vec![float(0.)]));
    assert_eq!(inferred.upper_f64(), Ok(vec![float(1.)]));
    assert!(inferred.releasable);
}

#[test]
fn only_the_bound_that_lacks_is_supplied() {
    let component = node(Variant::Impute(Impute {}), &[("data", 2), ("lower", 3)]);
    let properties =
        of(vec![("data", bounded(&[0.], &[5.])), ("lower", bounded(&[0.], &[0.]))]);
    let expansion = expand(&component, &properties).unwrap();
    assert_eq!(expansion.computation_graph.keys().copied().collect::<Vec<u32>>(), vec![5, 10]);
    assert_eq!(vector(&expansion.releases[&10].value), vec![5.]);
    assert_eq!(expansion.computation_graph[&5].arguments.get("lower"), Some(&3));
    assert_eq!(expansion.computation_graph[&5].arguments.get("upper"), Some(&10));
}

#[test]
fn a_component_that_lacks_no_bound_stays_as_it_is() {
    for variant in [Variant::Clamp(Clamp {}), Variant::Impute(Impute {}), Variant::Resize(Resize {})]
    {
        let component = node(variant, &[("data", 2), ("lower", 3), ("upper", 4)]);
        let properties = of(vec![
            ("data", bounded(&[0.], &[5.])),
            ("lower", bounded(&[0.], &[0.])),
            ("upper", bounded(&[5.], &[5.])),
        ]);
        let expansion = expand(&component, &properties).unwrap();
        assert_eq!(expansion.computation_graph.keys().copied().collect::<Vec<u32>>(), vec![5]);
        assert!(expansion.releases.is_empty());
        assert!(expansion.properties.is_empty());
        assert!(expansion.traversal.is_empty());
        assert_eq!(
            expansion.computation_graph[&5].arguments.names(),
            vec!["data".to_string(), "lower".to_string(), "upper".to_string()]
        );
        let component = node(Variant::Clamp(Clamp {}), &[("data", 2), ("categories", 3)]);
        let properties =
            of(vec![("data", bounded(&[0.], &[5.])), ("categories", bounded(&[0.], &[5.]))]);
        let expansion = expand(&component, &properties).unwrap();
        assert_eq!(expansion.computation_graph.len(), 1);
    }
}

#[test]
fn bounds_cannot_be_supplied_without_ground() {
    let clamp = node(Variant::Clamp(Clamp {}), &[("data", 2)]);
    let resize = node(Variant::Resize(Resize {}), &[("data", 2)]);
    assert_eq!(
        expand(&clamp, &of(vec![])).unwrap_err().cause(),
        &Error::Missing(Argument::Data)
    );
    let mut unbounded = bounded(&[0.], &[5.]);
    unbounded.nature = None;
    assert_eq!(
        expand(&clamp, &of(vec![("data", unbounded)])).unwrap_err().cause(),
        &Error::BoundUndefined(Bound::Lower)
    );
    assert_eq!(
        expand(&resize, &of(vec![("lower", bounded(&[0.], &[5.])), ("upper", bounded(&[0.], &[5.]))]))
            .unwrap_err()
            .cause(),
        &Error::Missing(Argument::Data)
    );
    assert!(expand(
        &clamp,
        &of(vec![("lower", bounded(&[0.], &[5.])), ("upper", bounded(&[0.], &[5.]))])
    )
    .is_ok());
    assert_eq!(
        supply_bounds(&clamp, &of(vec![("data", bounded(&[0.], &[5.]))]), 5, u32::MAX, false)
            .unwrap_err(),
        Error::IdOverflow
    );
    assert_eq!(
        supply_bounds(&clamp, &of(vec![("data", bounded(&[0.], &[5.]))]), 5, u32::MAX - 1, false)
            .unwrap_err(),
        Error::IdOverflow
    );
}

#[test]
fn extremes_and_median_are_rewritten_into_quantiles() {
    let properties = of(vec![("data", bounded(&[0.], &[5.]))]);
    let expect = |variant: Variant, alpha: f64, interpolation: &str| {
        let component = node(variant, &[("data", 2)]);
        let expansion = expand(&component, &properties).unwrap();
        assert_eq!(expansion.traversal, vec![5]);
        assert_eq!(expansion.computation_graph.len(), 1);
        let rewritten = &expansion.computation_graph[&5];
        assert_eq!(rewritten.arguments.get("data"), Some(&2));
        assert_eq!(rewritten.submission, 4);
        match &rewritten.variant {
            Some(Variant::Quantile(quantile)) => {
                assert_eq!(quantile.alpha, float(alpha));
                assert_eq!(quantile.interpolation, interpolation);
            },
            other => panic!("unexpected {:?}", other),
        }
        let again = expand(rewritten, &properties).unwrap();
        assert!(is_empty(&again));
    };
    expect(Variant::Minimum(Minimum {}), 0., "lower");
    expect(Variant::Median(Median {}), 0.5, "midpoint");
    expect(Variant::Maximum(Maximum {}), 1., "upper");
}

#[test]
fn conversions_are_rewritten_into_casts() {
    let properties = of(vec![("data", bounded(&[0.], &[5.]))]);
    let expect = |variant: Variant, atomic_type: &str| {
        let component = node(variant, &[("data", 2)]);
        let expansion = expand(&component, &properties).unwrap();
        assert_eq!(expansion.traversal, vec![5]);
        match &expansion.computation_graph[&5].variant {
            Some(Variant::Cast(cast)) => assert_eq!(cast.atomic_type, atomic_type),
            other => panic!("unexpected {:?}", other),
        }
        assert!(is_empty(&expand(&expansion.computation_graph[&5], &properties).unwrap()));
    };
    expect(Variant::ToBool(ToBool {}), "bool");
    expect(Variant::ToFloat(ToFloat {}), "float");
    expect(Variant::ToInt(ToInt {}), "int");
    expect(Variant::ToString(ToText {}), "string");
}

#[test]
fn private_maximum_chooses_its_mechanism() {
    let usage = vec![PrivacyUsage { epsilon: float(1.), delta: float(0.) }];
    let expect = |mechanism: &str, candidates: bool, chosen: &str| {
        let component = node(
            Variant::DpMaximum(DpMaximum {
                mechanism: mechanism.to_string(),
                privacy_usage: usage.clone(),
            }),
            &[("data", 2)],
        );
        let mut entries = vec![("data", bounded(&[0.], &[5.]))];
        if candidates {
            entries.push(("candidates", bounded(&[0.], &[5.])));
        }
        let expansion = expand(&component, &of(entries)).unwrap();
        assert_eq!(expansion.traversal, vec![5]);
        match &expansion.computation_graph[&5].variant {
            Some(Variant::DpQuantile(quantile)) => {
                assert_eq!(quantile.alpha, float(1.));
                assert_eq!(quantile.interpolation, "upper");
                assert_eq!(quantile.mechanism, chosen);
                assert_eq!(quantile.privacy_usage, usage);
            },
            other => panic!("unexpected {:?}", other),
        }
    };
    expect("Automatic", false, "laplace");
    expect("AUTOMATIC", true, "exponential");
    expect("Gaussian", true, "gaussian");
    assert_eq!(DpMaximum::choose_mechanism("automatic".to_string(), true), "exponential");
    assert_eq!(DpMaximum::choose_mechanism("other".to_string(), true), "other");
}

#[test]
fn primitive_components_are_not_rewritten() {
    let properties = of(vec![("data", bounded(&[0.], &[5.]))]);
    for variant in [
        Variant::Sum(Sum {}),
        Variant::Cast(Cast { atomic_type: "float".to_string() }),
        Variant::Quantile(Quantile { alpha: float(0.5), interpolation: "lower".to_string() }),
        Variant::Index(Index {}),
        Variant::Union(Union { flatten: false }),
    ] {
        assert!(is_empty(&expand(&node(variant, &[("data", 2)]), &properties).unwrap()));
    }
    let blank = Component { arguments: Arguments::new(), variant: None, omit: false, submission: 0 };
    assert_eq!(expand(&blank, &properties).unwrap_err(), Error::VariantUndefined);
}

#[test]
fn components_on_partitioned_data_are_mapped() {
    let mut properties = of(vec![("lower", bounded(&[0.], &[5.]))]);
    properties.insert(
        "data",
        ValueProperties::Hashmap(HashmapProperties {
            num_records: None,
            disjoint: true,
            properties: Hashmap::I64(vec![]),
            columnar: false,
        }),
    );
    let component = node(Variant::Sum(Sum {}), &[("data", 2)]);
    let expansion = expand(&component, &properties).unwrap();
    assert_eq!(expansion.traversal, vec![5]);
    match &expansion.computation_graph[&5].variant {
        Some(Variant::Mapped(inner)) => {
            assert!(matches!(inner.variant, Some(Variant::Sum(_))));
            assert_eq!(inner.arguments.get("data"), Some(&2));
        },
        other => panic!("unexpected {:?}", other),
    }
    assert_eq!(expansion.computation_graph[&5].arguments.get("data"), Some(&2));
    assert!(is_empty(&expand(&expansion.computation_graph[&5], &properties).unwrap()));
    let index = node(Variant::Index(Index {}), &[("data", 2)]);
    assert!(is_empty(&expand(&index, &properties).unwrap()));
}

#[test]
fn a_patch_must_end_its_traversal_in_the_node() {
    let component = node(Variant::Sum(Sum {}), &[]);
    let mut expansion = replace_by(&component, 5, Variant::Sum(Sum {}));
    assert_eq!(expansion.is_valid(5), Ok(()));
    assert_eq!(expansion.is_valid(6), Err(Error::Traversal));
    expansion.visit(6);
    assert_eq!(expansion.is_valid(6), Ok(()));
    assert_eq!(expansion.is_valid(5), Err(Error::Traversal));
    assert_eq!(ComponentExpansion::new().is_valid(5), Ok(()));
}

#[test]
fn variants_rewrite_themselves() {
    let component = node(Variant::Clamp(Clamp {}), &[("data", 2)]);
    let properties = of(vec![("data", bounded(&[0.], &[5.]))]);
    let none = Arguments::new();
    let expansion = Clamp {}.expand_component(&None, &component, &none, &properties, 5, 9).unwrap();
    assert_eq!(expansion.computation_graph.len(), 3);
    let expansion = Resize {}.expand_component(&None, &component, &none, &properties, 5, 9).unwrap();
    assert_eq!(expansion.computation_graph.len(), 3);
    let expansion = Maximum {}.expand_component(&None, &component, &none, &properties, 5, 9).unwrap();
    assert_eq!(expansion.traversal, vec![5]);
}
