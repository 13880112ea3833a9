use webprobe::double::{is_zero_f64, Double};

fn double(x: f64) -> Double {
    Double { bits: x.to_bits() }
}

#[test]
fn comparison_agrees_with_doubles() {
    let values = [
        0.0,
        -0.0,
        5e-324,
        1e-300,
        0.1,
        0.25,
        1.0,
        1799.9999999999998,
        1800.0,
        3000.0,
        f64::MAX,
        f64::INFINITY,
        -1.0,
        f64::NEG_INFINITY,
        f64::NAN,
        -f64::NAN,
    ];
    for a in values {
        for limit in [5e-324, 0.1, 0.25, 1800.0, 3000.0, f64::MAX, f64::INFINITY] {
            assert_eq!(double(a).at_least(double(limit)), a >= limit, "{a} {limit}");
            assert_eq!(double(a).above(double(limit)), a > limit, "{a} {limit}");
        }
        assert_eq!(double(a).is_zero(), a == 0.0);
    }
}

#[test]
fn nothing_and_zero_are_zero() {
    assert!(is_zero_f64(&None));
    assert!(is_zero_f64(&Some(double(0.0))));
    assert!(is_zero_f64(&Some(double(-0.0))));
    assert!(!is_zero_f64(&Some(double(0.5))));
    assert!(!is_zero_f64(&Some(double(f64::NAN))));
}
