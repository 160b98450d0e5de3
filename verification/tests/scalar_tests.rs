use ray_tracer::scalar::Scalar;

fn s(x: f64) -> Scalar {
    Scalar::from_bits(x.to_bits())
}

fn samples() -> Vec<f64> {
    vec![
        0.0,
        -0.0,
        1.0,
        -1.0,
        0.5,
        -0.5,
        0.999,
        0.001,
        1e-8,
        -1e-8,
        1e-160,
        1e-320,
        -1e-320,
        f64::MIN_POSITIVE,
        2.5,
        -2.5,
        255.999,
        256.0,
        1e9,
        -1e9,
        2147483647.0,
        2147483648.0,
        -2147483648.0,
        -2147483649.0,
        4294967295.0,
        4294967296.0,
        9007199254740993.0,
        9.2233720368547758e18,
        -9.2233720368547758e18,
        1e19,
        -1e19,
        1e300,
        -1e300,
        f64::MAX,
        f64::MIN,
        f64::INFINITY,
        f64::NEG_INFINITY,
        f64::NAN,
        -f64::NAN,
        f64::from_bits(0x7FF0_0000_0000_0001),
        f64::from_bits(0xFFF8_0000_0000_0000),
        123456.789,
        -123456.789,
        0.1 + 0.2,
    ]
}

#[test]
fn bits_round_trip() {
    for x in samples() {
        assert_eq!(s(x).to_bits(), x.to_bits());
    }
    assert_eq!(Scalar::zero().to_bits(), 0.0f64.to_bits());
    assert_eq!(Scalar::one().to_bits(), 1.0f64.to_bits());
    assert_eq!(Scalar::infinity().to_bits(), f64::INFINITY.to_bits());
    assert_eq!(Scalar::neg_infinity().to_bits(), f64::NEG_INFINITY.to_bits());
}

#[test]
fn comparisons_agree_with_the_hardware() {
    for a in samples() {
        for b in samples() {
            assert_eq!(s(a).lt(&s(b)), a < b, "{a} < {b}");
            assert_eq!(s(a).le(&s(b)), a <= b, "{a} <= {b}");
            assert_eq!(s(a).gt(&s(b)), a > b, "{a} > {b}");
            assert_eq!(s(a).ge(&s(b)), a >= b, "{a} >= {b}");
            assert_eq!(s(a).eq_num(&s(b)), a == b, "{a} == {b}");
        }
    }
}

#[test]
fn total_order_agrees_with_the_hardware() {
    for a in samples() {
        for b in samples() {
            let expected = a.total_cmp(&b).is_lt();
            assert_eq!(s(a).total_lt(&s(b)), expected, "{a} before {b}");
            assert_eq!(s(a).total_key() < s(b).total_key(), expected);
        }
    }
}

#[test]
fn total_order_puts_minus_zero_first() {
    assert!(s(-0.0).total_lt(&s(0.0)));
    assert!(!s(0.0).total_lt(&s(-0.0)));
    assert!(!s(-0.0).lt(&s(0.0)));
    assert!(s(-0.0).eq_num(&s(0.0)));
}

#[test]
fn classification_agrees_with_the_hardware() {
    for x in samples() {
        assert_eq!(s(x).is_nan(), x.is_nan(), "{x}");
        assert_eq!(s(x).is_sign_negative(), x.is_sign_negative(), "{x}");
    }
}

#[test]
fn negation_and_absolute_value_flip_the_sign_bit() {
    for x in samples() {
        assert_eq!(s(x).neg().to_bits(), (-x).to_bits(), "{x}");
        assert_eq!(s(x).abs().to_bits(), x.abs().to_bits(), "{x}");
    }
}

#[test]
fn casts_agree_with_the_hardware() {
    for x in samples() {
        assert_eq!(s(x).to_i64(), x as i64, "{x} as i64");
        assert_eq!(s(x).to_i32(), x as i32, "{x} as i32");
        assert_eq!(s(x).to_u32(), x as u32, "{x} as u32");
    }
}

#[test]
fn casts_round_towards_zero() {
    assert_eq!(s(2.9).to_i32(), 2);
    assert_eq!(s(-2.9).to_i32(), -2);
    assert_eq!(s(0.999).to_i32(), 0);
    assert_eq!(s(-0.999).to_i32(), 0);
    assert_eq!(s(1e10).to_i32(), i32::MAX);
    assert_eq!(s(-1e10).to_i32(), i32::MIN);
    assert_eq!(s(f64::NAN).to_i32(), 0);
    assert_eq!(s(-5.0).to_u32(), 0);
    assert_eq!(s(1e30).to_i64(), i64::MAX);
    assert_eq!(s(-1e30).to_i64(), i64::MIN);
    assert_eq!(s(1048576.75).to_i64(), 1048576);
    assert_eq!(s(4503599627370497.0).to_i64(), 4503599627370497);
    assert_eq!(s(1e18).to_i64(), 1_000_000_000_000_000_000);
}

#[test]
fn casts_agree_on_a_sweep_of_exponents() {
    let mut x = 1.0e-5f64;
    while x < 1.0e22 {
        for y in [x, -x, x * 1.000001, -x * 0.999999] {
            assert_eq!(s(y).to_i64(), y as i64, "{y}");
            assert_eq!(s(y).to_i32(), y as i32, "{y}");
            assert_eq!(s(y).to_u32(), y as u32, "{y}");
        }
        x *= 1.7;
    }
}
