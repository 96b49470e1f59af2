use fmm_translation::error::FieldError;
use fmm_translation::matrix::Matrix;

#[test]
fn from_rows_rejects_ragged_rows() {
    let r = Matrix::from_rows(2, vec![vec![1i64, 2], vec![3]]);
    assert!(matches!(r, Err(FieldError::DimensionMismatch)));
}

#[test]
fn from_rows_keeps_shape_without_rows() {
    let m = Matrix::<i64>::from_rows(4, vec![]).unwrap();
    assert_eq!((m.nrows(), m.ncols()), (0, 4));
}

#[test]
fn filled_and_get() {
    let m = Matrix::filled(2, 3, 7i64);
    assert_eq!((m.nrows(), m.ncols()), (2, 3));
    assert_eq!(m.get(1, 2), 7);
}

#[test]
fn sum_is_entrywise() {
    let a = Matrix::from_rows(2, vec![vec![1i64, 2], vec![3, 4]]).unwrap();
    let b = Matrix::from_rows(2, vec![vec![10i64, 20], vec![30, 40]]).unwrap();
    assert_eq!(a.sum(&b).to_rows(), vec![vec![11, 22], vec![33, 44]]);
}

#[test]
fn product_values() {
    let a = Matrix::from_rows(3, vec![vec![1i64, 2, 3], vec![4, 5, 6]]).unwrap();
    let b = Matrix::from_rows(2, vec![vec![7i64, 8], vec![9, 10], vec![11, 12]]).unwrap();
    assert_eq!(a.product(&b).to_rows(), vec![vec![58, 64], vec![139, 154]]);
}

#[test]
fn product_of_floats() {
    let a = Matrix::from_rows(2, vec![vec![0.5f64, 1.5]]).unwrap();
    let b = Matrix::from_rows(1, vec![vec![2.0f64], vec![4.0]]).unwrap();
    assert_eq!(a.product(&b).to_rows(), vec![vec![7.0]]);
}
