use font_metrics::errors::MetricsError;
use font_metrics::ratio::Ratio;

#[test]
fn new_stores_pair_verbatim() {
    let r = Ratio::new(10, 5);
    assert_eq!(r.numer, 10);
    assert_eq!(r.denom, 5);
    // No reduction to lowest terms.
    assert_ne!(r, Ratio::new(2, 1));
}

#[test]
fn divide_by_zero_fails() {
    let r = Ratio::new(10, 1);
    assert_eq!(r.divide(0), Err(MetricsError::DivisionByZero));
}

#[test]
fn divide_scales_denominator() {
    let r = Ratio::new(10, 1);
    let divided = r.divide(5).unwrap();
    assert_eq!(divided, Ratio::new(10, 5));
    let approx = divided.to_approximate_decimal().unwrap();
    assert_eq!(approx, 2_000_000); // exactly 2.0 in millionths
}

#[test]
fn approximate_decimal_of_undefined_is_none() {
    assert_eq!(Ratio::new(7, 0).to_approximate_decimal(), None);
    assert_eq!(Ratio::new(0, 0).to_approximate_decimal(), None);
    assert_eq!(Ratio::new(-3, 0).to_approximate_decimal(), None);
}

#[test]
fn approximate_decimal_truncates_toward_zero() {
    assert_eq!(Ratio::new(1, 2).to_approximate_decimal(), Some(500_000));
    assert_eq!(Ratio::new(2, 3).to_approximate_decimal(), Some(666_666));
    assert_eq!(Ratio::new(-2, 3).to_approximate_decimal(), Some(-666_666));
    assert_eq!(Ratio::new(2, -3).to_approximate_decimal(), Some(-666_666));
    assert_eq!(Ratio::new(-2, -3).to_approximate_decimal(), Some(666_666));
    assert_eq!(Ratio::new(0, 9).to_approximate_decimal(), Some(0));
}

#[test]
fn approximate_decimal_within_float_rounding_error() {
    let cases: [(i128, i128); 7] = [
        (1, 3),
        (10, 5),
        (15, 10),
        (-7, 11),
        (300, 600),
        (123456, 789),
        (2147483647, 3),
    ];
    for (n, d) in cases {
        let approx = Ratio::new(n, d).to_approximate_decimal().unwrap() as f64 / 1_000_000.0;
        let exact = n as f64 / d as f64;
        assert!(
            (approx - exact).abs() <= 1e-6 * (1.0 + exact.abs()),
            "approximation {} too far from {} for {}/{}",
            approx,
            exact,
            n,
            d
        );
    }
}

#[test]
fn recomputing_a_ratio_is_bit_identical() {
    let a = Ratio::new(10, 1).divide(5).unwrap();
    let b = Ratio::new(10, 1).divide(5).unwrap();
    assert_eq!(a, b);
    assert_eq!(a.to_approximate_decimal(), b.to_approximate_decimal());
}
