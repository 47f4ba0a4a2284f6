use whitenoise_validator::float::{Float, FOUR_BITS, HALF_BITS, ONE_BITS};

fn float(value: f64) -> Float {
    Float::from_bits(value.to_bits())
}

fn number(value: Float) -> f64 {
    f64::from_bits(value.to_bits())
}

fn samples() -> Vec<f64> {
    vec![
        f64::NEG_INFINITY,
        f64::MIN,
        -1e300,
        -10.5,
        -1.0,
        -f64::MIN_POSITIVE,
        -5e-324,
        -0.0,
        0.0,
        5e-324,
        f64::MIN_POSITIVE,
        0.5,
        1.0,
        2.0,
        10.0,
        1e300,
        f64::MAX,
        f64::INFINITY,
        f64::NAN,
        -f64::NAN,
    ]
}

#[test]
fn constants_encode_their_numbers() {
    assert_eq!(number(Float::zero()), 0.0);
    assert_eq!(number(Float::one()), 1.0);
    assert_eq!(number(Float::four()), 4.0);
    assert_eq!(ONE_BITS, 1.0f64.to_bits());
    assert_eq!(FOUR_BITS, 4.0f64.to_bits());
    assert_eq!(HALF_BITS, 0.5f64.to_bits());
    assert_eq!(Float::from_bits(7).to_bits(), 7);
}

#[test]
fn order_is_that_of_the_numbers() {
    for a in samples() {
        for b in samples() {
            assert_eq!(float(a).lt(float(b)), a < b, "{} < {}", a, b);
            assert_eq!(float(a).le(float(b)), a <= b, "{} <= {}", a, b);
            assert_eq!(float(a).equals(float(b)), a == b, "{} == {}", a, b);
        }
    }
}

#[test]
fn nan_is_recognized() {
    for a in samples() {
        assert_eq!(float(a).is_nan(), a.is_nan());
    }
}

#[test]
fn maximum_and_minimum_are_those_of_the_numbers() {
    for a in samples() {
        for b in samples() {
            let larger = number(float(a).max(float(b)));
            let smaller = number(float(a).min(float(b)));
            if a.is_nan() && b.is_nan() {
                assert!(larger.is_nan() && smaller.is_nan());
            } else {
                assert_eq!(larger, a.max(b), "max({}, {})", a, b);
                assert_eq!(smaller, a.min(b), "min({}, {})", a, b);
            }
        }
    }
}

#[test]
fn of_two_zeros_the_first_is_kept() {
    assert_eq!(float(-0.0).max(float(0.0)).to_bits(), (-0.0f64).to_bits());
    assert_eq!(float(0.0).min(float(-0.0)).to_bits(), 0.0f64.to_bits());
}

#[test]
fn magnitude_and_negation_act_on_the_sign() {
    for a in samples() {
        assert_eq!(float(a).abs().to_bits(), a.abs().to_bits());
        assert_eq!(float(a).neg().to_bits(), (-a).to_bits());
    }
}
