use raytracer::matrix::Matrix;

#[test]
fn matrix_test_matrix_creation_default() {
    let num_rows = 2;
    let num_cols = 2;
    let m = Matrix::<f64>::new(num_rows, num_cols);
    let expected_vec = vec![0.0, 0.0, 0.0, 0.0];
    assert_eq!(num_rows * num_cols, m.num_rows() * m.num_cols());
    assert_eq!(num_rows * num_cols, m.to_vec().len());
    assert_eq!(expected_vec, m.to_vec());
}

#[test]
fn matrix_test_matrix_assignment() {
    let num_rows = 2;
    let num_cols = 3;
    let mut m = Matrix::<f64>::new(num_rows, num_cols);
    let expected_vector = vec![1.0, 2.0, 3.0, 4.0, 5.0, 6.0];
    for row in 0..num_rows {
        for col in 0..num_cols {
            m.set(row, col, expected_vector[row * num_cols + col]);
        }
    }
    assert_eq!(expected_vector, m.to_vec());
}

#[test]
fn matrix_test_matrix_from_slice() {
    let slice1 = [[1.2, 2.3], [2.1, 3.2]];
    let slice2 = [[1; 3]; 4];
    let m1: Matrix<f64> = Matrix::from(slice1);
    let m2: Matrix<i32> = Matrix::from(slice2);
    for (row, row_val) in slice1.iter().enumerate() {
        for (col, col_val) in row_val.iter().enumerate() {
            assert_eq!(m1.get(row, col), *col_val);
        }
    }
    for (row, row_val) in slice2.iter().enumerate() {
        for (col, col_val) in row_val.iter().enumerate() {
            assert_eq!(m2.get(row, col), *col_val);
        }
    }
}

#[test]
fn matrix_test_compare() {
    let slice1 = [[1.2, 2.3], [2.1, 3.2]];
    let slice2 = [[1.0; 3]; 4];
    let m1: Matrix<f64> = Matrix::from(slice1);
    let m2: Matrix<f64> = Matrix::from(slice1);
    let m3: Matrix<f64> = Matrix::from(slice2);
    assert_eq!(m1, m2);
    assert_ne!(m1, m3);
}

#[test]
fn matrix_test_multiply_matrix() {
    let m1: Matrix<i32> = Matrix::from([[1, 2, 3, 4], [5, 6, 7, 8], [9, 8, 7, 6], [5, 4, 3, 2]]);
    let m2: Matrix<i32> = Matrix::from([[-2, 1, 2, 3], [3, 2, 1, -1], [4, 3, 6, 5], [1, 2, 7, 8]]);
    let expected = Matrix::from([
        [20, 22, 50, 48],
        [44, 54, 114, 108],
        [40, 58, 110, 102],
        [16, 26, 46, 42],
    ]);

    assert_eq!(expected, (m1 * m2).unwrap());

    let m3: Matrix<i32> = Matrix::from([[1, 2, 3, 4], [2, 4, 4, 2], [8, 6, 4, 1], [0, 0, 0, 1]]);
    let slice = [1, 2, 3, 1];
    let m4 = Matrix::from(slice);
    let expected2: Matrix<i32> = Matrix::from([18, 24, 33, 1]);
    assert_eq!(expected2, (m3.clone() * slice).unwrap());
    assert_eq!(expected2, (m3 * m4).unwrap());
}

#[test]
fn matrix_test_multiply_matrix_error() {
    let m1: Matrix<i32> = Matrix::from([[1, 2, 3, 4], [5, 6, 7, 8]]);
    let m2: Matrix<i32> = Matrix::from([[-2, 1, 2], [3, 2, 1], [4, 3, 6]]);
    assert!((m1 * m2).is_err());
}

#[test]
fn matrix_test_identity() {
    let m = Matrix::identity(2, 1.0);
    let expected = Matrix::<f64>::from([[1.0, 0.0], [0.0, 1.0]]);
    assert_eq!(expected, m);
}

#[test]
fn tests_test_matrix_creation_default() {
    let num_rows = 2;
    let num_cols = 2;
    let m = Matrix::<f64>::new(num_rows, num_cols);
    let expected_vec = vec![0.0, 0.0, 0.0, 0.0];
    assert_eq!(num_rows * num_cols, m.num_rows() * m.num_cols());
    assert_eq!(num_rows * num_cols, m.to_vec().len());
    assert_eq!(expected_vec, m.to_vec());
}

#[test]
fn tests_test_matrix_assignment() {
    let num_rows = 2;
    let num_cols = 3;
    let mut m = Matrix::<f64>::new(num_rows, num_cols);
    let expected_vector = vec![1.0, 2.0, 3.0, 4.0, 5.0, 6.0];
    for row in 0..num_rows {
        for col in 0..num_cols {
            m.set(row, col, expected_vector[row * num_cols + col]);
        }
    }
    assert_eq!(expected_vector, m.to_vec());
}

#[test]
fn tests_test_matrix_from_slice() {
    let slice1 = [[1.2, 2.3], [2.1, 3.2]];
    let slice2 = [[1; 3]; 4];
    let m1: Matrix<f64> = Matrix::from(slice1);
    let m2: Matrix<i32> = Matrix::from(slice2);
    for (row, row_val) in slice1.iter().enumerate() {
        for (col, col_val) in row_val.iter().enumerate() {
            assert_eq!(m1.get(row, col), *col_val);
        }
    }
    for (row, row_val) in slice2.iter().enumerate() {
        for (col, col_val) in row_val.iter().enumerate() {
            assert_eq!(m2.get(row, col), *col_val);
        }
    }
}

#[test]
fn tests_test_compare() {
    let slice1 = [[1.2, 2.3], [2.1, 3.2]];
    let slice2 = [[1.0; 3]; 4];
    let m1: Matrix<f64> = Matrix::from(slice1);
    let m2: Matrix<f64> = Matrix::from(slice1);
    let m3: Matrix<f64> = Matrix::from(slice2);
    assert_eq!(m1, m2);
    assert_ne!(m1, m3);
}

#[test]
fn tests_test_multiply_matrix() {
    let m1: Matrix<i32> = Matrix::from([[1, 2, 3, 4], [5, 6, 7, 8], [9, 8, 7, 6], [5, 4, 3, 2]]);
    let m2: Matrix<i32> = Matrix::from([[-2, 1, 2, 3], [3, 2, 1, -1], [4, 3, 6, 5], [1, 2, 7, 8]]);
    let expected = Matrix::from([
        [20, 22, 50, 48],
        [44, 54, 114, 108],
        [40, 58, 110, 102],
        [16, 26, 46, 42],
    ]);

    assert_eq!(expected, (m1 * m2).unwrap());

    let m3: Matrix<i32> = Matrix::from([[1, 2, 3, 4], [2, 4, 4, 2], [8, 6, 4, 1], [0, 0, 0, 1]]);
    let slice = [1, 2, 3, 1];
    let m4 = Matrix::from(slice);
    let expected2: Matrix<i32> = Matrix::from([18, 24, 33, 1]);
    assert_eq!(expected2, (m3.clone() * slice).unwrap());
    assert_eq!(expected2, (m3 * m4).unwrap());
}

#[test]
fn tests_test_multiply_matrix_error() {
    let m1: Matrix<i32> = Matrix::from([[1, 2, 3, 4], [5, 6, 7, 8]]);
    let m2: Matrix<i32> = Matrix::from([[-2, 1, 2], [3, 2, 1], [4, 3, 6]]);
    assert!((m1 * m2).is_err());
}

#[test]
fn tests_test_identity() {
    let m1 = Matrix::identity(2, 1.0);
    let expected = Matrix::<f64>::from([[1.0, 0.0], [0.0, 1.0]]);
    assert_eq!(expected, m1);
    let m2 = Matrix::from([[1.0, 2.0], [5.0, 6.0]]);
    assert_eq!(m2, (m2.clone() * m1).unwrap());
}

#[test]
fn test_transpose() {
    let m: Matrix<i32> = Matrix::from([[0, 9, 3, 0], [9, 8, 0, 8], [1, 8, 5, 3], [0, 0, 5, 8]]);
    let expected: Matrix<i32> =
        Matrix::from([[0, 9, 1, 0], [9, 8, 8, 0], [3, 0, 5, 5], [0, 8, 3, 8]]);
    assert_eq!(expected, m.transpose());
    let i = Matrix::identity(4, 1);
    assert_eq!(i, i.transpose());
}

#[test]
fn test_determinant() {
    let m: Matrix<i32> = Matrix::from([[1, 5], [-3, 2]]);
    assert_eq!(17, m.determinant().unwrap());
    let m2: Matrix<i32> = Matrix::from([[1, 5, 6], [-3, 2, 1]]);
    assert!(m2.determinant().is_err());
}

#[test]
fn test_submatrix() {
    let m1 = Matrix::<i32>::from([[1, 5, 0], [-3, 2, 7], [0, 6, -3]]);
    let expected1 = Matrix::<i32>::from([[-3, 2], [0, 6]]);
    assert_eq!(expected1, m1.submatrix(0, 2).unwrap());

    let m2 = Matrix::<i32>::from([[-6, 1, 1, 6], [-8, 5, 8, 6], [-1, 0, 8, 2], [-7, 1, -1, 1]]);
    let expected2 = Matrix::<i32>::from([[-6, 1, 6], [-8, 8, 6], [-7, -1, 1]]);
    assert_eq!(expected2, m2.submatrix(2, 1).unwrap());

    assert!(m1.submatrix(3, 0).is_err());
}

#[test]
fn test_minor() {
    let m = Matrix::<i32>::from([[3, 5, 0], [2, -1, -7], [6, -1, 5]]);
    assert_eq!(25, m.minor(1, 0).unwrap());
}

#[test]
fn test_cofactor() {
    let m = Matrix::<i32>::from([[3, 5, 0], [2, -1, -7], [6, -1, 5]]);
    assert_eq!(-12, m.minor(0, 0).unwrap());
    assert_eq!(-12, m.cofactor(0, 0).unwrap());
    assert_eq!(25, m.minor(1, 0).unwrap());
    assert_eq!(-25, m.cofactor(1, 0).unwrap());

    let m2 = Matrix::<i32>::from([[1, 2, 6], [-5, 8, -4], [2, 6, 4]]);
    assert_eq!(56, m2.cofactor(0, 0).unwrap());
    assert_eq!(12, m2.cofactor(0, 1).unwrap());
    assert_eq!(-46, m2.cofactor(0, 2).unwrap());
    assert_eq!(-196, m2.determinant().unwrap());

    let m3 = Matrix::<i32>::from([[-2, -8, 3, 5], [-3, 1, 7, 3], [1, 2, -9, 6], [-6, 7, 7, -9]]);
    assert_eq!(690, m3.cofactor(0, 0).unwrap());
    assert_eq!(447, m3.cofactor(0, 1).unwrap());
    assert_eq!(210, m3.cofactor(0, 2).unwrap());
    assert_eq!(51, m3.cofactor(0, 3).unwrap());
    assert_eq!(-4071, m3.determinant().unwrap());
}

#[test]
fn test_invertible() {
    let m1 = Matrix::<i32>::from([[6, 4, 4, 4], [5, 5, 7, 6], [4, -9, 3, -7], [9, 1, 7, -6]]);
    let m2 = Matrix::<i32>::from([[-4, 2, -2, -3], [9, 6, 2, 6], [0, -5, 1, -5], [0, 0, 0, 0]]);
    assert_eq!(-2120, m1.determinant().unwrap());
    assert!(m1.is_invertible().unwrap());
    assert_eq!(0, m2.determinant().unwrap());
    assert!(!m2.is_invertible().unwrap());
}
