use std::ops::{Add, Div, Mul, Sub};

use mandelbrot::complex::Complex;

type Case = [(f32, f32); 3];

fn check(name: &str, op: fn(Complex<f32>, Complex<f32>) -> Complex<f32>, tests: &[Case]) {
    for test in tests {
        let [lhs, rhs, expected] = *test;
        let lhs: Complex<f32> = lhs.into();
        let rhs: Complex<f32> = rhs.into();
        let expected: Complex<f32> = expected.into();
        let result = op(lhs, rhs);
        assert_eq!(
            result, expected,
            "{} {:?} {:?} expected {:?} but got {:?}",
            name, lhs, rhs, expected, result
        );
    }
}

#[test]
fn add() {
    // [a, b, c]
    // a + b = c
    let tests = [
        [(1., 2.), (3., -4.), (4., -2.)],
        [(-1.2, 3.4), (-5.6, -7.8), (-6.8, -4.4)],
    ];

    check("Add::add", Add::add, &tests);
}

#[test]
fn sub() {
    // [a, b, c]
    // a - b = c
    let tests = [
        [(1., 2.), (3., -4.), (-2., 6.)],
        [(-1.2, 3.4), (-5.6, -7.8), (4.3999996, 11.200001)],
    ];

    check("Sub::sub", Sub::sub, &tests);
}

#[test]
fn mul() {
    // [a, b, c]
    // a * b = c
    let tests = [
        [(1., 2.), (3., -4.), (11., 2.)],
        [(-1.2, 3.4), (-5.6, -7.8), (33.24, -9.68)],
    ];

    check("Mul::mul", Mul::mul, &tests);
}

#[test]
fn div() {
    // [a, b, c]
    // a / b = c
    let tests = [
        [(1., 2.), (3., -4.), (-0.2, 0.4)],
        [(-1.2, 3.4), (-5.6, -7.8), (-0.21475053, -0.30802605)],
        [(1., 1.), (1., 1.), (1., 0.)],
        [(1., 0.), (5., 5.), (0.1, -0.1)],
        [(0., 0.), (3., 2.), (0., 0.)],
    ];

    check("Div::div", Div::div, &tests);
}

#[test]
fn complex_conj_and_abs_squared() {
    let z = Complex::new(3i64, -4i64);
    let c = z.conj();
    assert_eq!(c, Complex::new(3, 4));
    assert_eq!(z.abs_squared(), 25);
    assert_eq!(-z, Complex::new(-3, 4));
}

#[test]
fn complex_scalar_ops() {
    let z = Complex::new(6i64, -4i64);
    assert_eq!(z + 1, Complex::new(7, -4));
    assert_eq!(z - 1, Complex::new(5, -4));
    assert_eq!(z * 3, Complex::new(18, -12));
    assert_eq!(z / 2, Complex::new(3, -2));
}

#[test]
fn complex_integer_mul_formula() {
    // (1 + 2i)(3 - 4i) = (3 + 8) + (-4 + 6)i
    let a = Complex::new(1i64, 2);
    let b = Complex::new(3i64, -4);
    assert_eq!(a * b, Complex::new(11, 2));
}
