use whitenoise_validator::array::NdArray;
use whitenoise_validator::base::{
    AggregatorProperties, Arguments, Array, ArrayProperties, DataType, JaggedProperties, Nature,
    NatureContinuous, NodeProperties, SensitivitySpace, Value, ValueProperties, Vector1DNull,
};
use whitenoise_validator::components::arithmetic::{
    evaluate, evaluate_by_column, larger_square, quarter, range, range_product, scaled, scaling,
    squared_range, Formula,
};
use whitenoise_validator::components::Sensitivity;
use whitenoise_validator::errors::{Argument, Bound, Capability, Error};
use whitenoise_validator::float::{Float, Operation};
use whitenoise_validator::proto::{
    Cast, Covariance, Neighboring, PrivacyDefinition, Quantile, Sum, Variance, Variant, VariantKind,
};

fn float(value: f64) -> Float {
    Float::from_bits(value.to_bits())
}

fn number(value: Float) -> f64 {
    f64::from_bits(value.to_bits())
}

fn arithmetic(operation: Operation) -> Float {
    match operation {
        Operation::Add(a, b) => float(number(a) + number(b)),
        Operation::Subtract(a, b) => float(number(a) - number(b)),
        Operation::Multiply(a, b) => float(number(a) * number(b)),
        Operation::Divide(a, b) => float(number(a) / number(b)),
        Operation::FromInteger(n) => float(n as f64),
    }
}

fn known(values: &[f64]) -> Vector1DNull {
    Vector1DNull::F64(values.iter().map(|v| Some(float(*v))).collect())
}

fn bounded(lower: &[f64], upper: &[f64], num_records: Option<i64>) -> ArrayProperties {
    ArrayProperties {
        num_records,
        num_columns: Some(lower.len() as i64),
        nullity: false,
        releasable: false,
        c_stability: vec![float(1.); lower.len()],
        aggregator: None,
        nature: Some(Nature::Continuous(NatureContinuous {
            lower: known(lower),
            upper: known(upper),
        })),
        data_type: DataType::F64,
        dataset_id: Some(1),
        is_not_empty: true,
        dimensionality: 2,
    }
}

fn of(entries: Vec<(&str, ArrayProperties)>) -> NodeProperties {
    let mut properties = Arguments::new();
    for (name, entry) in entries {
        properties.insert(name, ValueProperties::Array(entry));
    }
    properties
}

fn under(neighboring: Neighboring) -> PrivacyDefinition {
    PrivacyDefinition {
        group_size: 1,
        neighboring: neighboring.to_i32(),
        strict_parameter_checks: false,
        protect_overflow: false,
        protect_elapsed_time: false,
        protect_memory_utilization: false,
        protect_floating_point: false,
    }
}

fn cells(value: Value) -> (Vec<usize>, Vec<f64>) {
    match value {
        Value::Array(Array::F64(array)) => {
            (array.shape().clone(), array.items().iter().map(|v| number(*v)).collect())
        },
        other => panic!("unexpected {:?}", other),
    }
}

fn sum(
    neighboring: Neighboring,
    properties: &NodeProperties,
    space: SensitivitySpace,
) -> Result<Value, Error> {
    Sum {}.compute_sensitivity(&under(neighboring), properties, &space, &arithmetic)
}

#[test]
fn neighboring_is_named_by_number() {
    assert_eq!(Neighboring::from_i32(0), Some(Neighboring::Substitute));
    assert_eq!(Neighboring::from_i32(1), Some(Neighboring::AddRemove));
    assert_eq!(Neighboring::from_i32(2), None);
    assert_eq!(Neighboring::from_i32(-1), None);
    assert_eq!(Neighboring::Substitute.to_i32(), 0);
    assert_eq!(Neighboring::AddRemove.to_i32(), 1);
}

#[test]
fn formulas_compute_what_they_say() {
    let f = &arithmetic;
    assert_eq!(number(range(f, float(2.), float(10.))), 8.);
    assert_eq!(number(squared_range(f, float(2.), float(10.))), 64.);
    assert_eq!(number(range_product(f, float(2.), float(10.), float(-1.), float(2.))), 24.);
    assert_eq!(number(quarter(f, float(10.))), 2.5);
    assert_eq!(number(larger_square(f, float(-3.), float(2.))), 9.);
    assert_eq!(number(scaled(f, float(3.), float(0.5))), 1.5);
    assert_eq!(number(evaluate(f, Formula::LargerMagnitude, float(-3.), float(2.))), 3.);
    assert_eq!(number(evaluate(f, Formula::Range, float(-3.), float(2.))), 5.);
    assert_eq!(number(evaluate(f, Formula::LargerSquare, float(-3.), float(2.))), 9.);
    assert_eq!(number(evaluate(f, Formula::SquaredRange, float(-3.), float(2.))), 25.);
    assert_eq!(
        number(evaluate(f, Formula::ScaledSquaredRange(float(2.)), float(-3.), float(2.))),
        50.
    );
    assert_eq!(
        evaluate_by_column(f, Formula::Range, &vec![float(0.), float(1.)], &vec![float(5.)]),
        vec![float(5.)]
    );
}

#[test]
fn scaling_follows_the_neighboring_relation() {
    let f = &arithmetic;
    assert_eq!(
        number(scaling(f, Neighboring::AddRemove, false, 50, true)),
        50. / (50. + 1.) / (50. - 1.)
    );
    assert_eq!(
        number(scaling(f, Neighboring::AddRemove, true, 50, false)),
        50. / (50. + 1.) / (50. - 0.)
    );
    assert_eq!(
        number(scaling(f, Neighboring::Substitute, false, 50, true)),
        (50. - 1.) / 50. / (50. - 1.)
    );
    assert_eq!(
        number(scaling(f, Neighboring::Substitute, true, 50, true)),
        2. * (50. - 1.) / 50. / (50. - 1.)
    );
}

#[test]
fn sum_sensitivity_is_the_larger_magnitude_of_the_bounds() {
    let properties = of(vec![("data", bounded(&[0., 0.], &[10., 10.], Some(100)))]);
    let sensitivity = sum(Neighboring::AddRemove, &properties, SensitivitySpace::KNorm(1)).unwrap();
    assert_eq!(cells(sensitivity), (vec![1, 2], vec![10., 10.]));
    let properties = of(vec![("data", bounded(&[-20., -1.], &[10., 4.], Some(100)))]);
    let sensitivity = sum(Neighboring::AddRemove, &properties, SensitivitySpace::KNorm(1)).unwrap();
    assert_eq!(cells(sensitivity), (vec![1, 2], vec![20., 4.]));
}

#[test]
fn sum_sensitivity_follows_norm_and_neighboring() {
    let properties = of(vec![("data", bounded(&[-20., 1.], &[10., 4.], None))]);
    let run = |neighboring, k| {
        cells(sum(neighboring, &properties, SensitivitySpace::KNorm(k)).unwrap()).1
    };
    assert_eq!(run(Neighboring::Substitute, 1), vec![30., 3.]);
    assert_eq!(run(Neighboring::AddRemove, 2), vec![400., 16.]);
    assert_eq!(run(Neighboring::Substitute, 2), vec![900., 9.]);
}

#[test]
fn sum_sensitivity_is_refused_where_it_has_no_ground() {
    let good = || bounded(&[0.], &[1.], Some(5));
    let run = |properties: NodeProperties, space| {
        sum(Neighboring::AddRemove, &properties, space).unwrap_err()
    };
    assert_eq!(
        run(of(vec![("data", good())]), SensitivitySpace::InfNorm),
        Error::SpaceUnsupported(VariantKind::Sum)
    );
    assert_eq!(
        run(of(vec![("data", good())]), SensitivitySpace::Exponential),
        Error::SpaceUnsupported(VariantKind::Sum)
    );
    assert_eq!(run(of(vec![("data", good())]), SensitivitySpace::KNorm(3)), Error::NormUnsupported);
    assert_eq!(run(of(vec![("data", good())]), SensitivitySpace::KNorm(0)), Error::NormUnsupported);
    assert_eq!(run(of(vec![]), SensitivitySpace::KNorm(1)), Error::Missing(Argument::Data));
    let mut jagged = Arguments::new();
    jagged.insert("data", ValueProperties::Jagged(JaggedProperties { releasable: true }));
    assert_eq!(
        run(jagged, SensitivitySpace::KNorm(1)),
        Error::PropertiesNotArray.within(Argument::Data)
    );
    let mut null = good();
    null.nullity = true;
    assert_eq!(run(of(vec![("data", null)]), SensitivitySpace::KNorm(1)), Error::Nullity);
    let mut aggregated = good();
    aggregated.nullity = true;
    aggregated.releasable = true;
    aggregated.aggregator =
        Some(AggregatorProperties::new(Variant::Sum(Sum {}), Arguments::new(), 1));
    assert_eq!(run(of(vec![("data", aggregated)]), SensitivitySpace::KNorm(1)), Error::Aggregated);
    let mut unbounded = good();
    unbounded.nature = None;
    assert_eq!(
        run(of(vec![("data", unbounded)]), SensitivitySpace::KNorm(1)),
        Error::BoundUndefined(Bound::Lower)
    );
    let mut partly = good();
    partly.nature = Some(Nature::Continuous(NatureContinuous {
        lower: known(&[0.]),
        upper: Vector1DNull::F64(vec![None]),
    }));
    assert_eq!(
        run(of(vec![("data", partly)]), SensitivitySpace::KNorm(1)),
        Error::BoundUnknown(Bound::Upper)
    );
    let mut definition = under(Neighboring::AddRemove);
    definition.neighboring = 5;
    assert_eq!(
        Sum {}
            .compute_sensitivity(
                &definition,
                &of(vec![("data", good())]),
                &SensitivitySpace::KNorm(1),
                &arithmetic
            )
            .unwrap_err(),
        Error::Neighboring
    );
}

#[test]
fn variance_sensitivity_scales_the_squared_range() {
    let properties = of(vec![("data", bounded(&[0.], &[10.], Some(50)))]);
    let variance = Variance { finite_sample_correction: true };
    let sensitivity = variance
        .compute_sensitivity(
            &under(Neighboring::AddRemove),
            &properties,
            &SensitivitySpace::KNorm(1),
            &arithmetic,
        )
        .unwrap();
    let scaling = 50. / 51. / 49.;
    assert_eq!(cells(sensitivity), (vec![1, 1], vec![(10.0f64 - 0.).powi(2) * scaling]));
    let sensitivity = variance
        .compute_sensitivity(
            &under(Neighboring::Substitute),
            &properties,
            &SensitivitySpace::KNorm(2),
            &arithmetic,
        )
        .unwrap();
    assert_eq!(cells(sensitivity).1, vec![100. * (49. / 50. / 49.)]);
    let plain = Variance { finite_sample_correction: false };
    let sensitivity = plain
        .compute_sensitivity(
            &under(Neighboring::AddRemove),
            &properties,
            &SensitivitySpace::KNorm(1),
            &arithmetic,
        )
        .unwrap();
    assert_eq!(cells(sensitivity).1, vec![100. * (50. / 51. / 50.)]);
}

#[test]
fn substitution_scales_the_variance_sensitivity_by_the_documented_ratio() {
    for n in [2i64, 3, 10, 50, 1000, 123456] {
        for correction in [false, true] {
            let properties = of(vec![("data", bounded(&[-1., 0.], &[3., 10.], Some(n)))]);
            let variance = Variance { finite_sample_correction: correction };
            let run = |neighboring| {
                cells(
                    variance
                        .compute_sensitivity(
                            &under(neighboring),
                            &properties,
                            &SensitivitySpace::KNorm(1),
                            &arithmetic,
                        )
                        .unwrap(),
                )
                .1
            };
            let added = run(Neighboring::AddRemove);
            let substituted = run(Neighboring::Substitute);
            let n = n as f64;
            let ratio = ((n - 1.) / n) / (n / (n + 1.));
            for (a, s) in added.iter().zip(substituted.iter()) {
                assert!((s / a - ratio).abs() <= 1e-12 * ratio, "{} {} {}", s, a, ratio);
            }
        }
    }
}

#[test]
fn substitution_scales_the_sum_and_covariance_sensitivity_by_the_documented_ratio() {
    let properties = of(vec![("data", bounded(&[0., 0.], &[10., 4.], Some(20)))]);
    let added = cells(sum(Neighboring::AddRemove, &properties, SensitivitySpace::KNorm(1)).unwrap()).1;
    let substituted =
        cells(sum(Neighboring::Substitute, &properties, SensitivitySpace::KNorm(1)).unwrap()).1;
    assert_eq!(added, vec![10., 4.]);
    assert_eq!(substituted, vec![10., 4.]);
    let covariance = Covariance { finite_sample_correction: true };
    for n in [2i64, 7, 100] {
        let properties = of(vec![("data", bounded(&[0., 0.], &[10., 4.], Some(n)))]);
        let run = |neighboring| {
            cells(
                covariance
                    .compute_sensitivity(
                        &under(neighboring),
                        &properties,
                        &SensitivitySpace::KNorm(2),
                        &arithmetic,
                    )
                    .unwrap(),
            )
            .1
        };
        let n = n as f64;
        let ratio = (2. * (n - 1.) / n) / (n / (n + 1.));
        for (a, s) in run(Neighboring::AddRemove).iter().zip(run(Neighboring::Substitute).iter()) {
            assert!((s / a - ratio).abs() <= 1e-12 * ratio);
        }
    }
}

#[test]
fn variance_sensitivity_is_refused_where_it_has_no_ground() {
    let variance = Variance { finite_sample_correction: true };
    let run = |properties: NodeProperties, space| {
        variance
            .compute_sensitivity(&under(Neighboring::AddRemove), &properties, &space, &arithmetic)
            .unwrap_err()
    };
    assert_eq!(
        run(of(vec![("data", bounded(&[0.], &[1.], Some(5)))]), SensitivitySpace::InfNorm),
        Error::SpaceUnsupported(VariantKind::Variance)
    );
    assert_eq!(
        run(of(vec![("data", bounded(&[0.], &[1.], None))]), SensitivitySpace::KNorm(1)),
        Error::RecordsUnknown
    );
    assert_eq!(
        run(of(vec![("data", bounded(&[0.], &[1.], Some(5)))]), SensitivitySpace::KNorm(7)),
        Error::NormUnsupported
    );
    let mut both = bounded(&[0.], &[1.], Some(5));
    both.nullity = true;
    both.aggregator = Some(AggregatorProperties::new(Variant::Sum(Sum {}), Arguments::new(), 1));
    assert_eq!(run(of(vec![("data", both)]), SensitivitySpace::KNorm(1)), Error::Nullity);
}

#[test]
fn covariance_sensitivity_in_the_infinity_norm_is_unsupported() {
    let covariance = Covariance { finite_sample_correction: true };
    let properties = of(vec![("data", bounded(&[0.], &[1.], Some(5)))]);
    assert_eq!(
        covariance.compute_sensitivity(
            &under(Neighboring::AddRemove),
            &properties,
            &SensitivitySpace::InfNorm,
            &arithmetic
        ),
        Err(Error::SpaceUnsupported(VariantKind::Covariance))
    );
    assert_eq!(
        covariance.compute_sensitivity(
            &under(Neighboring::AddRemove),
            &of(vec![]),
            &SensitivitySpace::Exponential,
            &arithmetic
        ),
        Err(Error::SpaceUnsupported(VariantKind::Covariance))
    );
}

#[test]
fn covariance_sensitivity_of_data_fills_the_upper_triangle() {
    let covariance = Covariance { finite_sample_correction: true };
    let properties = of(vec![("data", bounded(&[0., 0.], &[10., 2.], Some(50)))]);
    let sensitivity = covariance
        .compute_sensitivity(
            &under(Neighboring::AddRemove),
            &properties,
            &SensitivitySpace::KNorm(1),
            &arithmetic,
        )
        .unwrap();
    let scaling = 50. / 51. / 49.;
    assert_eq!(
        cells(sensitivity),
        (vec![1, 3], vec![100. * scaling, 20. * scaling, 4. * scaling])
    );
    let sensitivity = covariance
        .compute_sensitivity(
            &under(Neighboring::Substitute),
            &properties,
            &SensitivitySpace::KNorm(1),
            &arithmetic,
        )
        .unwrap();
    let scaling = 2. * 49. / 50. / 49.;
    assert_eq!(cells(sensitivity).1, vec![100. * scaling, 20. * scaling, 4. * scaling]);
}

#[test]
fn covariance_sensitivity_between_data_sets_is_not_doubled() {
    let covariance = Covariance { finite_sample_correction: false };
    let properties = of(vec![
        ("left", bounded(&[0., 0.], &[10., 2.], Some(50))),
        ("right", bounded(&[1.], &[4.], Some(50))),
    ]);
    let sensitivity = covariance
        .compute_sensitivity(
            &under(Neighboring::Substitute),
            &properties,
            &SensitivitySpace::KNorm(2),
            &arithmetic,
        )
        .unwrap();
    let scaling = 49. / 50. / 50.;
    assert_eq!(cells(sensitivity), (vec![1, 2], vec![30. * scaling, 6. * scaling]));
}

#[test]
fn covariance_sensitivity_is_refused_where_it_has_no_ground() {
    let covariance = Covariance { finite_sample_correction: false };
    let run = |properties: NodeProperties, k| {
        covariance
            .compute_sensitivity(
                &under(Neighboring::AddRemove),
                &properties,
                &SensitivitySpace::KNorm(k),
                &arithmetic,
            )
            .unwrap_err()
    };
    let good = || bounded(&[0.], &[1.], Some(5));
    assert_eq!(run(of(vec![]), 1), Error::CovarianceArguments);
    assert_eq!(run(of(vec![("left", good())]), 1), Error::CovarianceArguments);
    assert_eq!(
        run(of(vec![("data", good()), ("left", good()), ("right", good())]), 1),
        Error::CovarianceArguments
    );
    assert_eq!(
        run(of(vec![("left", good()), ("right", bounded(&[0.], &[1.], Some(6)))]), 1),
        Error::RecordsMismatch
    );
    assert_eq!(
        run(of(vec![("left", good()), ("right", bounded(&[0.], &[1.], None))]), 1),
        Error::RecordsUnknown
    );
    assert_eq!(run(of(vec![("data", bounded(&[0.], &[1.], None))]), 1), Error::RecordsUnknown);
    assert_eq!(run(of(vec![("data", good())]), 3), Error::NormUnsupported);
    let mut null = good();
    null.nullity = true;
    assert_eq!(run(of(vec![("left", good()), ("right", null)]), 1), Error::Nullity);
}

#[test]
fn quantile_sensitivity_is_the_range() {
    let quantile = Quantile { alpha: float(0.25), interpolation: "lower".to_string() };
    let properties = of(vec![("data", bounded(&[0., -2.], &[10., 2.], None))]);
    let sensitivity = quantile
        .compute_sensitivity(
            &under(Neighboring::AddRemove),
            &properties,
            &SensitivitySpace::KNorm(1),
            &arithmetic,
        )
        .unwrap();
    assert_eq!(cells(sensitivity), (vec![1, 2], vec![10., 4.]));
}

#[test]
fn quantile_score_sensitivity_follows_alpha() {
    let quantile = Quantile { alpha: float(0.25), interpolation: "lower".to_string() };
    let properties = of(vec![("data", bounded(&[0., -2.], &[10., 2.], None))]);
    let run = |neighboring| {
        cells(
            quantile
                .compute_sensitivity(
                    &under(neighboring),
                    &properties,
                    &SensitivitySpace::Exponential,
                    &arithmetic,
                )
                .unwrap(),
        )
    };
    assert_eq!(run(Neighboring::AddRemove), (vec![2], vec![0.75, 0.75]));
    assert_eq!(run(Neighboring::Substitute), (vec![2], vec![1., 1.]));
}

#[test]
fn quantile_sensitivity_is_refused_where_it_has_no_ground() {
    let quantile = Quantile { alpha: float(0.25), interpolation: "lower".to_string() };
    let run = |properties: NodeProperties, space| {
        quantile
            .compute_sensitivity(&under(Neighboring::AddRemove), &properties, &space, &arithmetic)
            .unwrap_err()
    };
    let good = || bounded(&[0.], &[1.], None);
    assert_eq!(
        run(of(vec![("data", good())]), SensitivitySpace::KNorm(2)),
        Error::SpaceUnsupported(VariantKind::Quantile)
    );
    assert_eq!(
        run(of(vec![("data", good())]), SensitivitySpace::InfNorm),
        Error::SpaceUnsupported(VariantKind::Quantile)
    );
    let mut unknown = good();
    unknown.num_columns = None;
    assert_eq!(
        run(of(vec![("data", unknown)]), SensitivitySpace::Exponential),
        Error::ColumnsUnknown
    );
    let mut null = good();
    null.nullity = true;
    assert_eq!(run(of(vec![("data", null)]), SensitivitySpace::InfNorm), Error::Nullity);
    assert_eq!(run(of(vec![]), SensitivitySpace::InfNorm), Error::Missing(Argument::Data));
}

#[test]
fn variant_hands_on_to_its_aggregation() {
    let properties = of(vec![("data", bounded(&[0.], &[10.], Some(5)))]);
    let sensitivity = Variant::Sum(Sum {})
        .compute_sensitivity(
            &under(Neighboring::AddRemove),
            &properties,
            &SensitivitySpace::KNorm(1),
            &arithmetic,
        )
        .unwrap();
    assert_eq!(cells(sensitivity), (vec![1, 1], vec![10.]));
    assert_eq!(
        Variant::Covariance(Covariance { finite_sample_correction: true })
            .compute_sensitivity(
                &under(Neighboring::AddRemove),
                &properties,
                &SensitivitySpace::InfNorm,
                &arithmetic
            )
            .unwrap_err(),
        Error::SpaceUnsupported(VariantKind::Covariance).at_node(VariantKind::Covariance)
    );
    assert_eq!(
        Variant::Cast(Cast { atomic_type: "int".to_string() })
            .compute_sensitivity(
                &under(Neighboring::AddRemove),
                &properties,
                &SensitivitySpace::KNorm(1),
                &arithmetic
            )
            .unwrap_err(),
        Error::CapabilityMissing(Capability::Sensitivity, VariantKind::Cast)
    );
    let _ = NdArray::scalar(1i64);
}
