use raygeo::binary64::Binary64;

fn number(v: f64) -> Binary64 {
    Binary64 { bits: v.to_bits() }
}

const SAMPLES: [f64; 24] = [
    0.0,
    -0.0,
    0.5,
    -0.5,
    0.999_999_999,
    1.0,
    -1.0,
    1.5,
    -1.5,
    1000.75,
    -1000.75,
    2147483646.5,
    2147483647.0,
    2147483647.5,
    2147483648.0,
    -2147483648.0,
    -2147483648.5,
    -2147483649.0,
    1.0e300,
    -1.0e300,
    f64::INFINITY,
    f64::NEG_INFINITY,
    f64::NAN,
    f64::MIN_POSITIVE,
];

#[test]
fn conversion_agrees_with_the_cast() {
    for v in SAMPLES {
        assert_eq!(number(v).to_i32(), v as i32, "{v}");
    }
    assert_eq!(number(1500.9).to_i32(), 1500);
    assert_eq!(number(-1500.9).to_i32(), -1500);
    assert_eq!(number(f64::NAN).to_i32(), 0);
    assert_eq!(number(-5.0e-324).to_i32(), 0);
}

#[test]
fn comparisons_agree_with_the_operators() {
    for a in SAMPLES {
        for b in SAMPLES {
            assert_eq!(number(a).equals(number(b)), a == b, "{a} {b}");
            assert_eq!(number(a).is_at_most(number(b)), a <= b, "{a} {b}");
        }
        assert_eq!(number(a).is_zero(), a == 0.0, "{a}");
        assert_eq!(number(a).is_below_zero(), a < 0.0, "{a}");
    }
}

#[test]
fn both_zeros_are_equal_and_a_nan_is_not() {
    assert!(number(0.0).equals(number(-0.0)));
    assert!(!number(f64::NAN).equals(number(f64::NAN)));
    assert!(!number(-0.0).is_below_zero());
    assert!(number(-5.0e-324).is_below_zero());
}
