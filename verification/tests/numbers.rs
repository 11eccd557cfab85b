use fixed::types::I10F118;
use mandelbrot::exp2::Exp2;
use mandelbrot::high_precision::HighPrecision;

fn hp(v: f64) -> HighPrecision {
    HighPrecision::from_bits(I10F118::from_num(v).to_bits())
}

fn value(x: HighPrecision) -> f64 {
    I10F118::from_bits(x.to_bits()).to_num::<f64>()
}

#[test]
fn high_precision_bits_round_trip() {
    assert_eq!(HighPrecision::from_bits(12345).to_bits(), 12345);
    assert_eq!(HighPrecision::from_u64(1).to_bits(), 1i128 << 118);
    assert_eq!(HighPrecision::from_u64(511).to_bits(), 511i128 << 118);
}

#[test]
fn high_precision_arithmetic() {
    assert_eq!(value(hp(1.5) + hp(2.25)), 3.75);
    assert_eq!(value(hp(1.5) - hp(2.25)), -0.75);
    assert_eq!(value(hp(1.5) * hp(2.25)), 3.375);
    assert_eq!(value(hp(3.0) / hp(4.0)), 0.75);
    assert_eq!(value(-hp(1.5)), -1.5);
}

#[test]
fn high_precision_rounding() {
    // a product is rounded toward negative infinity
    let tiny = HighPrecision::from_bits(1);
    let half = hp(0.5);
    assert_eq!((tiny * half).to_bits(), 0);
    assert_eq!((-tiny * half).to_bits(), -1);
    // a quotient is rounded toward zero
    let three = HighPrecision::from_bits(3);
    let two = hp(2.0);
    assert_eq!((three / two).to_bits(), 1);
    assert_eq!((-three / two).to_bits(), -1);
}

#[test]
fn high_precision_matches_fixed() {
    let a = I10F118::from_num(-3.7);
    let b = I10F118::from_num(1.3);
    let (x, y) = (HighPrecision::from_bits(a.to_bits()), HighPrecision::from_bits(b.to_bits()));
    assert_eq!((x * y).to_bits(), (a * b).to_bits());
    assert_eq!((x / y).to_bits(), (a / b).to_bits());
    assert_eq!((x + y).to_bits(), (a + b).to_bits());
    assert_eq!((x - y).to_bits(), (a - b).to_bits());
}

#[test]
fn high_precision_exp2() {
    let eight = hp(3.0).exp2();
    assert!((value(eight) - 8.0).abs() < 1e-9);
    let root = hp(0.5).exp2();
    assert!((value(root) - std::f64::consts::SQRT_2).abs() < 1e-9);
    // saturation above an integer part of 256
    assert_eq!(hp(300.0).exp2().to_bits(), i128::MAX);
    assert_eq!(hp(-300.0).exp2().to_bits(), 0);
}

#[test]
fn high_precision_comparisons() {
    assert!(hp(1.5) == hp(1.5));
    assert!(hp(1.5) != hp(2.0));
    assert!(hp(-1.0) < hp(0.5));
    assert!(hp(0.5) <= hp(0.5));
    assert!(hp(2.0) > hp(1.0));
    assert_eq!(hp(1.0).partial_cmp(&hp(1.0)), Some(std::cmp::Ordering::Equal));
}

#[test]
fn high_precision_checked_ops() {
    assert_eq!(hp(1.5).checked_add(hp(2.25)), Some(hp(3.75)));
    assert_eq!(hp(1.5).checked_sub(hp(2.25)), Some(hp(-0.75)));
    assert_eq!(hp(1.5).checked_mul(hp(2.25)), Some(hp(3.375)));
    assert_eq!(hp(300.0).checked_add(hp(300.0)), None);
    assert_eq!(hp(-300.0).checked_sub(hp(300.0)), None);
    assert_eq!(hp(30.0).checked_mul(hp(30.0)), None);
}
