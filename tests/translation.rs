use fmm_translation::error::FieldError;
use fmm_translation::field::{Field, LaplaceFieldFromSources};
use fmm_translation::matrix::Matrix;
use fmm_translation::translation::{
    translate_from, FieldApproximationOperator, NumericalEvaluationOperator,
    NumericalTranslationOperator,
};

fn sources(n: usize) -> Matrix<i64> {
    let row: Vec<i64> = (0..n as i64).collect();
    Matrix::from_rows(n, vec![row.clone(), row.clone(), row]).unwrap()
}

fn field(n: usize, coefficients: Vec<Vec<i64>>, ncols: usize) -> LaplaceFieldFromSources<i64> {
    let c = Matrix::from_rows(ncols, coefficients).unwrap();
    LaplaceFieldFromSources::new(&sources(n), &c, 0)
}

// Sources with 2 coefficients, a compressed representation of 1 row, targets
// with 3 coefficients.
fn operator() -> NumericalTranslationOperator<i64> {
    let approx = Matrix::from_rows(2, vec![vec![1, 2]]).unwrap();
    let eval = Matrix::from_rows(1, vec![vec![1], vec![-1], vec![3]]).unwrap();
    NumericalTranslationOperator::new(
        FieldApproximationOperator::from_pseudo_inverse(approx).unwrap(),
        NumericalEvaluationOperator::from_compressed_core(eval).unwrap(),
    )
    .unwrap()
}

#[test]
fn empty_factors_fail_construction() {
    let no_rows = Matrix::<i64>::from_rows(3, vec![]).unwrap();
    assert!(matches!(
        FieldApproximationOperator::from_pseudo_inverse(no_rows),
        Err(FieldError::ConstructionFailure)
    ));
    let no_cols = Matrix::<i64>::from_rows(0, vec![vec![], vec![]]).unwrap();
    assert!(matches!(
        NumericalEvaluationOperator::from_compressed_core(no_cols),
        Err(FieldError::ConstructionFailure)
    ));
}

#[test]
fn stages_that_do_not_fit_are_rejected() {
    let approx = Matrix::from_rows(2, vec![vec![1i64, 2], vec![3, 4]]).unwrap();
    let eval = Matrix::from_rows(1, vec![vec![1i64]]).unwrap();
    let r = NumericalTranslationOperator::new(
        FieldApproximationOperator::from_pseudo_inverse(approx).unwrap(),
        NumericalEvaluationOperator::from_compressed_core(eval).unwrap(),
    );
    assert!(matches!(r, Err(FieldError::DimensionMismatch)));
}

#[test]
fn operator_apply_values_and_mismatch() {
    let approx = Matrix::from_rows(2, vec![vec![1i64, 2]]).unwrap();
    let op = FieldApproximationOperator::from_pseudo_inverse(approx).unwrap();
    assert_eq!((op.input_size(), op.output_size()), (2, 1));
    let vec = Matrix::from_rows(2, vec![vec![1i64, 10], vec![2, 20]]).unwrap();
    assert_eq!(op.apply(&vec).unwrap().to_rows(), vec![vec![5, 50]]);
    let wrong = Matrix::from_rows(1, vec![vec![1i64]]).unwrap();
    assert!(matches!(op.apply(&wrong), Err(FieldError::DimensionMismatch)));
}

#[test]
fn approximate_in_target_composes_in_order() {
    let op = operator();
    let source = field(2, vec![vec![1], vec![2]], 1);
    let target = field(3, vec![vec![0], vec![0], vec![0]], 1);
    // Approximation: 1 * 1 + 2 * 2 = 5; evaluation: (5, -5, 15).
    let r = op.approximate_in_target(&source, &target).unwrap();
    assert_eq!(r.to_rows(), vec![vec![5], vec![-5], vec![15]]);
}

#[test]
fn approximate_in_target_checks_dimensions() {
    let op = operator();
    let wrong_source = field(3, vec![vec![1], vec![2], vec![3]], 1);
    let target = field(3, vec![vec![0], vec![0], vec![0]], 1);
    assert!(matches!(
        op.approximate_in_target(&wrong_source, &target),
        Err(FieldError::DimensionMismatch)
    ));
    let source = field(2, vec![vec![1], vec![2]], 1);
    let wrong_target = field(2, vec![vec![0], vec![0]], 1);
    assert!(matches!(
        op.approximate_in_target(&source, &wrong_target),
        Err(FieldError::DimensionMismatch)
    ));
}

#[test]
fn translate_from_accumulates_two_sources() {
    let op = operator();
    let first = field(2, vec![vec![1], vec![2]], 1);
    let second = field(2, vec![vec![3], vec![-1]], 1);
    let mut target = field(3, vec![vec![0], vec![0], vec![0]], 1);
    let a = op.approximate_in_target(&first, &target).unwrap();
    let b = op.approximate_in_target(&second, &target).unwrap();
    assert_eq!(translate_from(&mut target, &op, &first), Ok(()));
    assert_eq!(translate_from(&mut target, &op, &second), Ok(()));
    assert_eq!(target.coefficients().to_rows(), a.sum(&b).to_rows());
    assert_eq!(target.coefficients().to_rows(), vec![vec![6], vec![-6], vec![18]]);
}

#[test]
fn translate_from_mismatch_leaves_target() {
    let op = operator();
    let source = field(2, vec![vec![1, 1], vec![2, 2]], 2);
    let mut target = field(3, vec![vec![7], vec![8], vec![9]], 1);
    assert_eq!(translate_from(&mut target, &op, &source), Err(FieldError::DimensionMismatch));
    assert_eq!(target.coefficients().to_rows(), vec![vec![7], vec![8], vec![9]]);
}
