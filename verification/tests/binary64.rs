use momentum_bot::binary64::Binary64;

fn b(x: f64) -> Binary64 {
    Binary64::from_bits(x.to_bits())
}

fn samples() -> Vec<f64> {
    vec![
        0.0,
        -0.0,
        1.0,
        -1.0,
        0.5,
        0.98,
        120.0,
        -120.0,
        5e-324,
        -5e-324,
        f64::MIN_POSITIVE,
        f64::MAX,
        f64::MIN,
        f64::INFINITY,
        f64::NEG_INFINITY,
        f64::NAN,
        -f64::NAN,
        f64::from_bits(0x7ff0_0000_0000_0001),
    ]
}

#[test]
fn comparisons_are_those_of_floats() {
    for x in samples() {
        for y in samples() {
            assert_eq!(b(x).lt(b(y)), x < y, "{x} < {y}");
            assert_eq!(b(x).le(b(y)), x <= y, "{x} <= {y}");
        }
    }
}

#[test]
fn signs_and_nan_are_those_of_floats() {
    for x in samples() {
        assert_eq!(b(x).is_nan(), x.is_nan());
        assert_eq!(b(x).is_positive(), x > 0.0);
        assert_eq!(b(x).neg().bits, (-x).to_bits());
    }
}

#[test]
fn one_is_one() {
    assert_eq!(Binary64::one().bits, 1.0f64.to_bits());
}

#[test]
fn both_zeros_are_equal_in_order() {
    assert!(b(0.0).le(b(-0.0)) && b(-0.0).le(b(0.0)));
    assert!(!b(-0.0).lt(b(0.0)));
}

#[test]
fn nan_compares_with_nothing() {
    let nan = b(f64::NAN);
    for x in samples() {
        assert!(!nan.lt(b(x)) && !nan.le(b(x)) && !b(x).lt(nan) && !b(x).le(nan));
    }
}

#[test]
fn opposite_turns_the_order_round() {
    assert!(b(1.0).lt(b(2.0)) && b(2.0).neg().lt(b(1.0).neg()));
    assert_eq!(b(4.0).neg().neg(), b(4.0));
}
