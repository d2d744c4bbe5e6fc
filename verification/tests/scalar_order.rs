use arma_pipeline::scalar::{Scalar, INFINITY_MAGNITUDE, SIGN_BIT};

fn sc(x: f64) -> Scalar {
    Scalar::from_bits(x.to_bits())
}

fn samples() -> Vec<f64> {
    vec![
        f64::NEG_INFINITY,
        f64::MIN,
        -1.0e300,
        -3.46,
        -2.88,
        -1.0,
        -1.0e-7,
        -f64::MIN_POSITIVE,
        -5.0e-324,
        -0.0,
        0.0,
        5.0e-324,
        f64::MIN_POSITIVE,
        1.0e-7,
        0.347,
        1.0,
        1.0000000000000002,
        1.96,
        252.0,
        1.0e300,
        f64::MAX,
        f64::INFINITY,
        f64::NAN,
        -f64::NAN,
    ]
}

#[test]
fn order_agrees_with_the_quantities() {
    let xs = samples();
    for &a in &xs {
        for &b in &xs {
            assert_eq!(sc(a).lt(&sc(b)), a < b, "{a} < {b}");
            assert_eq!(sc(a).le(&sc(b)), a <= b, "{a} <= {b}");
            assert_eq!(sc(a).gt(&sc(b)), a > b, "{a} > {b}");
            assert_eq!(sc(a).ge(&sc(b)), a >= b, "{a} >= {b}");
        }
    }
}

#[test]
fn classes_agree_with_the_quantities() {
    for &a in &samples() {
        assert_eq!(sc(a).is_nan(), a.is_nan(), "{a}");
        assert_eq!(sc(a).is_finite(), a.is_finite(), "{a}");
    }
}

#[test]
fn sign_is_zero_for_zeros_and_nan() {
    for &a in &samples() {
        let want: i8 = if a > 0.0 {
            1
        } else if a < 0.0 {
            -1
        } else {
            0
        };
        assert_eq!(sc(a).signum(), want, "{a}");
    }
    assert_eq!(sc(-0.0).signum(), 0);
    assert_eq!(sc(f64::NAN).signum(), 0);
}

#[test]
fn abs_clears_the_sign() {
    for &a in &samples() {
        assert_eq!(sc(a).abs().to_bits(), a.abs().to_bits(), "{a}");
    }
}

#[test]
fn bits_round_trip() {
    for &a in &samples() {
        assert_eq!(f64::from_bits(sc(a).to_bits()).to_bits(), a.to_bits());
    }
}

#[test]
fn order_key_is_signed_magnitude() {
    assert_eq!(sc(0.0).order_key(), 0);
    assert_eq!(sc(-0.0).order_key(), 0);
    assert_eq!(sc(1.0).order_key(), 0x3FF0_0000_0000_0000);
    assert_eq!(sc(-1.0).order_key(), -0x3FF0_0000_0000_0000);
    assert_eq!(sc(f64::INFINITY).order_key(), 0x7FF0_0000_0000_0000);
    assert_eq!(sc(f64::NEG_INFINITY).order_key(), -0x7FF0_0000_0000_0000);
    assert_eq!(Scalar::from_bits(u64::MAX).order_key(), -0x7FFF_FFFF_FFFF_FFFF);
}

#[test]
fn named_scalars() {
    assert_eq!(Scalar::zero().to_bits(), 0.0f64.to_bits());
    assert_eq!(Scalar::infinity().to_bits(), f64::INFINITY.to_bits());
    assert_eq!(INFINITY_MAGNITUDE, f64::INFINITY.to_bits());
    assert_eq!(SIGN_BIT, (-0.0f64).to_bits());
}
