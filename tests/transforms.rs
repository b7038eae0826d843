use raytracer::matrix::{Axis, Matrix};

fn limit_precision(m: &Matrix<f64>, num_places: i32) -> Matrix<f64> {
    let factor = 10.0_f64.powi(num_places);
    let mut out = Matrix::<f64>::new(m.num_rows(), m.num_cols());
    for row in 0..m.num_rows() {
        for col in 0..m.num_cols() {
            out.set(row, col, (m.get(row, col) * factor).round() / factor);
        }
    }
    out
}

fn limit_precision_f32(m: &Matrix<f32>, num_places: i32) -> Matrix<f32> {
    let factor = 10.0_f32.powi(num_places);
    let mut out = Matrix::<f32>::new(m.num_rows(), m.num_cols());
    for row in 0..m.num_rows() {
        for col in 0..m.num_cols() {
            out.set(row, col, (m.get(row, col) * factor).round() / factor);
        }
    }
    out
}

fn is_eq_float(x: f64, y: f64) -> bool {
    (x - y).abs() <= f64::EPSILON
}

/// Applies `m` to the point `(x, y, z)` and compares the first three rows of
/// the result with `expected`.
fn assert_point(m: &Matrix<f64>, p: [f64; 3], expected: [f64; 3]) {
    let r = (m.clone() * [p[0], p[1], p[2], 1.0]).unwrap();
    for i in 0..3 {
        assert!(is_eq_float(expected[i], r.get(i, 0)), "{} != {}", expected[i], r.get(i, 0));
    }
}

/// Applies `m` to the vector `(x, y, z)` and compares the first three rows of
/// the result with `expected`.
fn assert_vector(m: &Matrix<f64>, v: [f64; 3], expected: [f64; 3]) {
    let r = (m.clone() * [v[0], v[1], v[2], 0.0]).unwrap();
    for i in 0..3 {
        assert!(is_eq_float(expected[i], r.get(i, 0)), "{} != {}", expected[i], r.get(i, 0));
    }
}

#[test]
fn test_inverse() {
    let m1 = Matrix::<f64>::from([
        [-5., 2., 6., -8.],
        [1., -5., 1., 8.],
        [7., 7., -6., -7.],
        [1., -3., 7., 4.],
    ]);
    let inverted1 = Matrix::<f64>::from([
        [0.21805, 0.45113, 0.24060, -0.04511],
        [-0.80827, -1.45677, -0.44361, 0.52068],
        [-0.07895, -0.22368, -0.05263, 0.19737],
        [-0.52256, -0.81391, -0.30075, 0.30639],
    ]);

    assert_eq!(inverted1, limit_precision(&m1.inverse().unwrap(), 5));

    let m2 = Matrix::<f64>::from([
        [8.0, -5.0, 9.0, 2.0],
        [7.0, 5.0, 6.0, 1.0],
        [-6.0, 0.0, 9.0, 6.0],
        [-3.0, 0.0, -9.0, -4.0],
    ]);
    let inverted2 = Matrix::<f64>::from([
        [-0.15385, -0.15385, -0.28205, -0.53846],
        [-0.07692, 0.12308, 0.02564, 0.03077],
        [0.35897, 0.35897, 0.43590, 0.92308],
        [-0.69231, -0.69231, -0.76923, -1.92308],
    ]);
    assert_eq!(inverted2, limit_precision(&m2.inverse().unwrap(), 5));

    let m3 = Matrix::<f64>::from([
        [9.0, 3.0, 0.0, 9.0],
        [-5.0, -2.0, -6.0, -3.0],
        [-4.0, 9.0, 6.0, 4.0],
        [-7.0, 6.0, 6.0, 2.0],
    ]);
    let inverted3 = Matrix::<f64>::from([
        [-0.04074, -0.07778, 0.14444, -0.22222],
        [-0.07778, 0.03333, 0.36667, -0.33333],
        [-0.02901, -0.14630, -0.10926, 0.12963],
        [0.17778, 0.06667, -0.26667, 0.33333],
    ]);
    assert_eq!(inverted3, limit_precision(&m3.inverse().unwrap(), 5));
}

#[test]
fn test_inverse_multiplication() {
    let m1 = Matrix::<f32>::from([
        [3.0, -9.0, 7.0, 3.0],
        [3.0, -8.0, 2.0, -9.0],
        [-4.0, 4.0, 4.0, 1.0],
        [-6.0, 5.0, -1.0, 1.0],
    ]);

    let m2 = Matrix::<f32>::from([
        [8.0, 2.0, 2.0, 2.0],
        [3.0, -1.0, 7.0, 0.0],
        [7.0, 0.0, 5.0, 4.0],
        [6.0, -2.0, 0.0, 5.0],
    ]);

    let m3 = (m1.clone() * m2.clone()).unwrap();

    assert_eq!(m1, limit_precision_f32(&(m3 * m2.inverse().unwrap()).unwrap(), 5));
}

#[test]
fn test_transformations_translation() {
    let t = Matrix::translation(5.0, -3.0, 2.0);
    assert_point(&t, [-3.0, 4.0, 5.0], [2.0, 1.0, 7.0]);

    let inv = t.clone().inverse().unwrap();
    assert_point(&inv, [-3.0, 4.0, 5.0], [-8.0, 7.0, 3.0]);

    assert_vector(&t, [-3.0, 4.0, 5.0], [-3.0, 4.0, 5.0]);
}

#[test]
fn test_transformations_scaling() {
    let t = Matrix::scaling(2.0, 3.0, 4.0);
    assert_point(&t, [-4.0, 6.0, 8.0], [-8.0, 18.0, 32.0]);
    assert_vector(&t, [-4.0, 6.0, 8.0], [-8.0, 18.0, 32.0]);

    let inv = t.clone().inverse().unwrap();
    assert_vector(&inv, [-4.0, 6.0, 8.0], [-2.0, 2.0, 2.0]);
}

#[test]
fn test_transformations_reflection() {
    let t = Matrix::scaling(-1.0, 1.0, 1.0);
    assert_point(&t, [2.0, 3.0, 4.0], [-2.0, 3.0, 4.0]);
}

#[test]
fn test_rotation_x() {
    let q = std::f64::consts::FRAC_PI_4;
    let h = std::f64::consts::FRAC_PI_2;
    let half_quarter = Matrix::rotation(Axis::X, q.cos(), q.sin());
    let full_quarter = Matrix::rotation(Axis::X, h.cos(), h.sin());
    assert_point(&half_quarter, [0.0, 1.0, 0.0], [0.0, 2.0_f64.sqrt() / 2.0, 2.0_f64.sqrt() / 2.0]);
    assert_point(&full_quarter, [0.0, 1.0, 0.0], [0.0, 0.0, 1.0]);

    let inv = half_quarter.inverse().unwrap();
    assert_point(&inv, [0.0, 1.0, 0.0], [0.0, 2.0_f64.sqrt() / 2.0, -(2.0_f64.sqrt()) / 2.0]);
}

#[test]
fn test_rotation_y() {
    let q = std::f64::consts::FRAC_PI_4;
    let h = std::f64::consts::FRAC_PI_2;
    let half_quarter = Matrix::rotation(Axis::Y, q.cos(), q.sin());
    let full_quarter = Matrix::rotation(Axis::Y, h.cos(), h.sin());
    assert_point(&half_quarter, [0.0, 0.0, 1.0], [2.0_f64.sqrt() / 2.0, 0.0, 2.0_f64.sqrt() / 2.0]);
    assert_point(&full_quarter, [0.0, 0.0, 1.0], [1.0, 0.0, 0.0]);
}

#[test]
fn test_rotation_z() {
    let q = std::f64::consts::FRAC_PI_4;
    let h = std::f64::consts::FRAC_PI_2;
    let half_quarter = Matrix::rotation(Axis::Z, q.cos(), q.sin());
    let full_quarter = Matrix::rotation(Axis::Z, h.cos(), h.sin());
    assert_point(&half_quarter, [0.0, 1.0, 0.0], [-(2.0_f64.sqrt()) / 2.0, 2.0_f64.sqrt() / 2.0, 0.0]);
    assert_point(&full_quarter, [0.0, 1.0, 0.0], [-1.0, 0.0, 0.0]);
}

#[test]
fn test_shearing() {
    let p = [2.0, 3.0, 4.0];
    assert_point(&Matrix::shearing(1.0, 0.0, 0.0, 0.0, 0.0, 0.0), p, [5.0, 3.0, 4.0]);
    assert_point(&Matrix::shearing(0.0, 1.0, 0.0, 0.0, 0.0, 0.0), p, [6.0, 3.0, 4.0]);
    assert_point(&Matrix::shearing(0.0, 0.0, 1.0, 0.0, 0.0, 0.0), p, [2.0, 5.0, 4.0]);
    assert_point(&Matrix::shearing(0.0, 0.0, 0.0, 1.0, 0.0, 0.0), p, [2.0, 7.0, 4.0]);
    assert_point(&Matrix::shearing(0.0, 0.0, 0.0, 0.0, 1.0, 0.0), p, [2.0, 3.0, 6.0]);
    assert_point(&Matrix::shearing(0.0, 0.0, 0.0, 0.0, 0.0, 1.0), p, [2.0, 3.0, 7.0]);
}
