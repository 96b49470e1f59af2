use fmm_translation::error::FieldError;
use fmm_translation::field::{evaluation_shape, EvalMode, Field, LaplaceFieldFromSources};
use fmm_translation::matrix::Matrix;

fn two_sources() -> Matrix<f64> {
    Matrix::from_rows(2, vec![vec![0.0, 1.0], vec![0.0, 0.0], vec![0.0, 0.0]]).unwrap()
}

fn field_with(coefficients: Vec<Vec<f64>>, ncols: usize) -> LaplaceFieldFromSources<f64> {
    let c = Matrix::from_rows(ncols, coefficients).unwrap();
    LaplaceFieldFromSources::new(&two_sources(), &c, 5)
}

#[test]
fn accessors_follow_the_coefficients() {
    let field = field_with(vec![vec![1.0, 2.0, 3.0], vec![4.0, 5.0, 6.0]], 3);
    assert_eq!(field.index(), 5);
    assert_eq!(field.coefficient_dimension(), 2);
    assert_eq!(field.number_of_coefficient_vectors(), 3);
    assert_eq!(field.space_dimension(), 1);
    assert_eq!(field.sources().ncols(), 2);
    let c = field.coefficients();
    assert_eq!((c.nrows(), c.ncols()), (2, 3));
}

#[test]
fn update_adds_entrywise() {
    let mut field = field_with(vec![vec![1.0], vec![2.0]], 1);
    let delta = Matrix::from_rows(1, vec![vec![0.5], vec![-2.0]]).unwrap();
    assert_eq!(field.update_coefficients(&delta), Ok(()));
    assert_eq!(field.coefficients().to_rows(), vec![vec![1.5], vec![0.0]]);
}

#[test]
fn update_with_wrong_rows_changes_nothing() {
    let mut field = field_with(vec![vec![1.0], vec![2.0]], 1);
    let delta = Matrix::from_rows(1, vec![vec![0.5]]).unwrap();
    assert_eq!(field.update_coefficients(&delta), Err(FieldError::DimensionMismatch));
    assert_eq!(field.coefficients().to_rows(), vec![vec![1.0], vec![2.0]]);
}

#[test]
fn update_with_wrong_columns_changes_nothing() {
    let mut field = field_with(vec![vec![1.0], vec![2.0]], 1);
    let delta = Matrix::from_rows(2, vec![vec![0.5, 0.5], vec![0.5, 0.5]]).unwrap();
    assert_eq!(field.update_coefficients(&delta), Err(FieldError::DimensionMismatch));
    assert_eq!(field.coefficients().to_rows(), vec![vec![1.0], vec![2.0]]);
}

#[test]
fn set_replaces_exactly() {
    let mut field = field_with(vec![vec![1.0], vec![2.0]], 1);
    let new = Matrix::from_rows(2, vec![vec![3.0, 4.0], vec![5.0, 6.0]]).unwrap();
    assert_eq!(field.set_coefficients(&new), Ok(()));
    assert_eq!(field.coefficients().to_rows(), vec![vec![3.0, 4.0], vec![5.0, 6.0]]);
    assert_eq!(field.number_of_coefficient_vectors(), 2);
}

#[test]
fn set_with_wrong_rows_changes_nothing() {
    let mut field = field_with(vec![vec![1.0], vec![2.0]], 1);
    let new = Matrix::from_rows(1, vec![vec![3.0], vec![4.0], vec![5.0]]).unwrap();
    assert_eq!(field.set_coefficients(&new), Err(FieldError::DimensionMismatch));
    assert_eq!(field.coefficients().to_rows(), vec![vec![1.0], vec![2.0]]);
}

#[test]
fn evaluation_shapes() {
    let field = field_with(vec![vec![1.0, 0.0], vec![2.0, 0.0]], 2);
    assert_eq!(evaluation_shape(&field, 7, EvalMode::Value), Ok((2, 7, 1, 1)));
    assert_eq!(evaluation_shape(&field, 7, EvalMode::ValueGrad), Ok((2, 7, 1, 4)));
}

#[test]
fn evaluation_without_targets_is_invalid() {
    let field = field_with(vec![vec![1.0], vec![2.0]], 1);
    assert_eq!(evaluation_shape(&field, 0, EvalMode::Value), Err(FieldError::InvalidInput));
}
