use path_tracer::scalar::{Scalar, INFINITY_ORD, ONE_ORD};
use path_tracer::vec3::Vec3;

fn s(x: f64) -> Scalar {
    Scalar::from_bits(x.to_bits())
}

fn f(x: Scalar) -> f64 {
    f64::from_bits(x.to_bits())
}

fn samples() -> Vec<f64> {
    vec![
        f64::NEG_INFINITY,
        f64::MIN,
        -1.0e300,
        -2.5,
        -1.0,
        -f64::MIN_POSITIVE,
        -5.0e-324,
        -0.0,
        0.0,
        5.0e-324,
        f64::MIN_POSITIVE,
        0.001,
        0.5,
        1.0,
        1.0000000000000002,
        2.0,
        255.999,
        1.0e300,
        f64::MAX,
        f64::INFINITY,
        f64::NAN,
        -f64::NAN,
    ]
}

#[test]
fn constants_are_the_doubles_they_name() {
    assert_eq!(Scalar::zero(), s(0.0));
    assert_eq!(Scalar::one(), s(1.0));
    assert_eq!(Scalar::infinity(), s(f64::INFINITY));
    assert_eq!(Scalar::one().ord, ONE_ORD);
    assert_eq!(Scalar::infinity().ord, INFINITY_ORD);
    assert_eq!(f(Scalar::one()), 1.0);
    assert_eq!(f(Scalar::infinity()), f64::INFINITY);
}

#[test]
fn ordinals_of_some_doubles() {
    assert_eq!(s(0.0).ord, 0);
    assert_eq!(s(-0.0).ord, 0);
    assert_eq!(s(5.0e-324).ord, 1);
    assert_eq!(s(-5.0e-324).ord, -1);
    assert_eq!(s(2.0).ord, 0x4000_0000_0000_0000);
    assert_eq!(s(-1.0).ord, -0x3FF0_0000_0000_0000);
    assert_eq!(s(f64::NEG_INFINITY).ord, -0x7FF0_0000_0000_0000);
}

#[test]
fn bits_round_trip_but_for_the_sign_of_zero() {
    for x in samples() {
        let back = f(s(x));
        if x.is_nan() {
            assert!(back.is_nan());
        } else {
            assert_eq!(back, x);
        }
        if x != 0.0 && !x.is_nan() {
            assert_eq!(back.to_bits(), x.to_bits());
        }
    }
    assert_eq!(s(-0.0).to_bits(), 0);
}

#[test]
fn comparison_is_that_of_doubles() {
    for a in samples() {
        for b in samples() {
            assert_eq!(s(a).lt(s(b)), a < b, "{} < {}", a, b);
            assert_eq!(s(a).le(s(b)), a <= b, "{} <= {}", a, b);
            assert_eq!(s(a).gt(s(b)), a > b, "{} > {}", a, b);
            if !a.is_nan() && !b.is_nan() {
                assert_eq!(s(a) == s(b), a == b, "{} == {}", a, b);
            }
        }
    }
}

#[test]
fn min_and_max_are_those_of_doubles() {
    for a in samples() {
        for b in samples() {
            let lo = f(s(a).min(s(b)));
            let hi = f(s(a).max(s(b)));
            if a.is_nan() && b.is_nan() {
                assert!(lo.is_nan() && hi.is_nan());
            } else {
                assert_eq!(lo, a.min(b), "min({}, {})", a, b);
                assert_eq!(hi, a.max(b), "max({}, {})", a, b);
            }
        }
    }
}

#[test]
fn negation_is_that_of_doubles() {
    for a in samples() {
        let n = f(s(a).neg());
        if a.is_nan() {
            assert!(n.is_nan());
        } else {
            assert_eq!(n, -a);
        }
    }
    assert!(!Scalar { ord: i64::MIN }.neg().is_finite_or_infinite());
}

#[test]
fn what_is_not_a_number_is_told_apart() {
    assert!(s(1.0).is_finite_or_infinite());
    assert!(s(f64::INFINITY).is_finite_or_infinite());
    assert!(s(f64::NEG_INFINITY).is_finite_or_infinite());
    assert!(!s(f64::NAN).is_finite_or_infinite());
    assert!(!s(-f64::NAN).is_finite_or_infinite());
}

#[test]
fn vectors_hold_their_components() {
    let v = Vec3::new(s(1.0), s(-2.0), s(3.5));
    assert_eq!(f(v.get(0)), 1.0);
    assert_eq!(f(v.get(1)), -2.0);
    assert_eq!(f(v.get(2)), 3.5);
    let n = v.neg();
    assert_eq!((f(n.x), f(n.y), f(n.z)), (-1.0, 2.0, -3.5));
    assert_eq!(Vec3::splat(s(0.25)), Vec3::new(s(0.25), s(0.25), s(0.25)));
}
