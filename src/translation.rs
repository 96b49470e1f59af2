//! Numerical translation operators: a compressed approximation stage followed
//! by an evaluation stage, composed to move a source field's coefficients into
//! a target field's coefficient space.
use crate::error::FieldError;
use crate::field::Field;
use crate::matrix::{
    arithmetic_specified, arithmetic_total, has_shape, matrix_product, matrix_sum, product_defined,
    sum_defined, Matrix,
};
use std::ops::{Add, Mul};
use vstd::prelude::*;
use vstd::std_specs::ops::AddSpec;

verus! {

/// Applies the `n x k` matrix `map` to `vec`; fails with `DimensionMismatch`
/// unless `vec` has `k` rows.
fn apply_map<T: Copy + Add<Output = T> + Mul<Output = T>>(map: &Matrix<T>, vec: &Matrix<T>) -> (r:
    Result<Matrix<T>, FieldError>)
    requires
        map.wf(),
        map.spec_ncols() >= 1,
        vec.wf(),
        vec.spec_nrows() == map.spec_ncols() ==> product_defined(map@, vec@, vec.spec_ncols()),
    ensures
        r is Ok <==> vec.spec_nrows() == map.spec_ncols(),
        r is Err ==> r == Err::<Matrix<T>, FieldError>(FieldError::DimensionMismatch),
        r is Ok ==> {
            let m = r->Ok_0;
            &&& m.wf()
            &&& m.spec_nrows() == map.spec_nrows()
            &&& m.spec_ncols() == vec.spec_ncols()
            &&& arithmetic_specified::<T>() ==> m@ == matrix_product(map@, vec@, vec.spec_ncols())
        },
{
    if vec.nrows() != map.ncols() {
        return Err(FieldError::DimensionMismatch);
    }
    Ok(map.product(vec))
}

/// The map from a field's coefficients to its compressed equivalent
/// representation: the pseudo-inverse of a truncated kernel matrix.
pub struct FieldApproximationOperator<T> {
    pseudo_inverse: Matrix<T>,
}

impl<T: Copy + Add<Output = T> + Mul<Output = T>> FieldApproximationOperator<T> {
    /// The pseudo-inverse that the operator applies.
    pub closed spec fn spec_map(&self) -> Seq<Seq<T>> {
        self.pseudo_inverse@
    }

    /// The number of coefficients the operator takes in.
    pub closed spec fn input_dimension(&self) -> nat {
        self.pseudo_inverse.spec_ncols()
    }

    /// The number of rows of the compressed representation.
    pub open spec fn output_dimension(&self) -> nat {
        self.spec_map().len()
    }

    /// Both dimensions are positive and the map is a well-formed matrix.
    pub closed spec fn wf(&self) -> bool {
        &&& self.pseudo_inverse.wf()
        &&& self.pseudo_inverse.spec_nrows() >= 1
        &&& self.pseudo_inverse.spec_ncols() >= 1
    }

    /// An operator that applies `pseudo_inverse`. Fails with
    /// `ConstructionFailure` if the matrix has no rows or no columns.
    pub fn from_pseudo_inverse(pseudo_inverse: Matrix<T>) -> (r: Result<
        FieldApproximationOperator<T>,
        FieldError,
    >)
        requires
            pseudo_inverse.wf(),
        ensures
            r is Ok <==> pseudo_inverse.spec_nrows() >= 1 && pseudo_inverse.spec_ncols() >= 1,
            r is Err ==> r == Err::<FieldApproximationOperator<T>, FieldError>(
                FieldError::ConstructionFailure,
            ),
            r is Ok ==> {
                let op = r->Ok_0;
                &&& op.wf()
                &&& op.spec_map() == pseudo_inverse@
                &&& op.input_dimension() == pseudo_inverse.spec_ncols()
            },
    {
        if pseudo_inverse.nrows() == 0 || pseudo_inverse.ncols() == 0 {
            return Err(FieldError::ConstructionFailure);
        }
        Ok(FieldApproximationOperator { pseudo_inverse })
    }

    /// The number of coefficients the operator takes in.
    pub fn input_size(&self) -> (r: usize)
        ensures
            r == self.input_dimension(),
    {
        self.pseudo_inverse.ncols()
    }

    /// The number of rows of the compressed representation.
    pub fn output_size(&self) -> (r: usize)
        ensures
            r == self.output_dimension(),
    {
        self.pseudo_inverse.nrows()
    }

    /// The compressed representation `pseudo_inverse * vec`. Fails with
    /// `DimensionMismatch` unless `vec` has `input_dimension()` rows.
    pub fn apply(&self, vec: &Matrix<T>) -> (r: Result<Matrix<T>, FieldError>)
        requires
            self.wf(),
            vec.wf(),
            vec.spec_nrows() == self.input_dimension() ==> product_defined(
                self.spec_map(),
                vec@,
                vec.spec_ncols(),
            ),
        ensures
            r is Ok <==> vec.spec_nrows() == self.input_dimension(),
            r is Err ==> r == Err::<Matrix<T>, FieldError>(FieldError::DimensionMismatch),
            r is Ok ==> {
                let m = r->Ok_0;
                &&& m.wf()
                &&& m.spec_nrows() == self.output_dimension()
                &&& m.spec_ncols() == vec.spec_ncols()
                &&& arithmetic_specified::<T>() ==> m@ == matrix_product(
                    self.spec_map(),
                    vec@,
                    vec.spec_ncols(),
                )
            },
    {
        apply_map(&self.pseudo_inverse, vec)
    }
}

/// The map from a compressed representation to a target field's coefficients:
/// the compressed core of an interpolative decomposition.
pub struct NumericalEvaluationOperator<T> {
    compressed_core: Matrix<T>,
}

impl<T: Copy + Add<Output = T> + Mul<Output = T>> NumericalEvaluationOperator<T> {
    /// The compressed core that the operator applies.
    pub closed spec fn spec_map(&self) -> Seq<Seq<T>> {
        self.compressed_core@
    }

    /// The number of rows of the compressed representation it takes in.
    pub closed spec fn input_dimension(&self) -> nat {
        self.compressed_core.spec_ncols()
    }

    /// The number of target coefficients it produces.
    pub open spec fn output_dimension(&self) -> nat {
        self.spec_map().len()
    }

    /// Both dimensions are positive and the map is a well-formed matrix.
    pub closed spec fn wf(&self) -> bool {
        &&& self.compressed_core.wf()
        &&& self.compressed_core.spec_nrows() >= 1
        &&& self.compressed_core.spec_ncols() >= 1
    }

    /// An operator that applies `compressed_core`. Fails with
    /// `ConstructionFailure` if the matrix has no rows or no columns.
    pub fn from_compressed_core(compressed_core: Matrix<T>) -> (r: Result<
        NumericalEvaluationOperator<T>,
        FieldError,
    >)
        requires
            compressed_core.wf(),
        ensures
            r is Ok <==> compressed_core.spec_nrows() >= 1 && compressed_core.spec_ncols() >= 1,
            r is Err ==> r == Err::<NumericalEvaluationOperator<T>, FieldError>(
                FieldError::ConstructionFailure,
            ),
            r is Ok ==> {
                let op = r->Ok_0;
                &&& op.wf()
                &&& op.spec_map() == compressed_core@
                &&& op.input_dimension() == compressed_core.spec_ncols()
            },
    {
        if compressed_core.nrows() == 0 || compressed_core.ncols() == 0 {
            return Err(FieldError::ConstructionFailure);
        }
        Ok(NumericalEvaluationOperator { compressed_core })
    }

    /// The number of rows of the compressed representation it takes in.
    pub fn input_size(&self) -> (r: usize)
        ensures
            r == self.input_dimension(),
    {
        self.compressed_core.ncols()
    }

    /// The number of target coefficients it produces.
    pub fn output_size(&self) -> (r: usize)
        ensures
            r == self.output_dimension(),
    {
        self.compressed_core.nrows()
    }

    /// The target coefficients `compressed_core * vec`. Fails with
    /// `DimensionMismatch` unless `vec` has `input_dimension()` rows.
    pub fn apply(&self, vec: &Matrix<T>) -> (r: Result<Matrix<T>, FieldError>)
        requires
            self.wf(),
            vec.wf(),
            vec.spec_nrows() == self.input_dimension() ==> product_defined(
                self.spec_map(),
                vec@,
                vec.spec_ncols(),
            ),
        ensures
            r is Ok <==> vec.spec_nrows() == self.input_dimension(),
            r is Err ==> r == Err::<Matrix<T>, FieldError>(FieldError::DimensionMismatch),
            r is Ok ==> {
                let m = r->Ok_0;
                &&& m.wf()
                &&& m.spec_nrows() == self.output_dimension()
                &&& m.spec_ncols() == vec.spec_ncols()
                &&& arithmetic_specified::<T>() ==> m@ == matrix_product(
                    self.spec_map(),
                    vec@,
                    vec.spec_ncols(),
                )
            },
    {
        apply_map(&self.compressed_core, vec)
    }
}

/// An approximation stage followed by an evaluation stage. The order is fixed:
/// a field's coefficients are first compressed, then evaluated in the target.
pub struct NumericalTranslationOperator<T> {
    approximation_operator: FieldApproximationOperator<T>,
    evaluation_operator: NumericalEvaluationOperator<T>,
}

/// The translation of the coefficient matrix `c` with `ncols` columns through
/// the approximation map `approx` and then the evaluation map `eval`.
pub open spec fn translated<T: Add<Output = T> + Mul<Output = T>>(
    approx: Seq<Seq<T>>,
    eval: Seq<Seq<T>>,
    c: Seq<Seq<T>>,
    ncols: nat,
) -> Seq<Seq<T>> {
    matrix_product(eval, matrix_product(approx, c, ncols), ncols)
}

impl<T: Copy + Add<Output = T> + Mul<Output = T>> NumericalTranslationOperator<T> {
    /// The approximation stage.
    pub closed spec fn spec_approximation(&self) -> FieldApproximationOperator<T> {
        self.approximation_operator
    }

    /// The evaluation stage.
    pub closed spec fn spec_evaluation(&self) -> NumericalEvaluationOperator<T> {
        self.evaluation_operator
    }

    /// Both stages are well formed and fit together.
    pub open spec fn wf(&self) -> bool {
        &&& self.spec_approximation().wf()
        &&& self.spec_evaluation().wf()
        &&& self.spec_approximation().output_dimension()
            == self.spec_evaluation().input_dimension()
    }

    /// The number of coefficients of the source fields it takes.
    pub open spec fn source_dimension(&self) -> nat {
        self.spec_approximation().input_dimension()
    }

    /// The number of coefficients of the target fields it produces.
    pub open spec fn target_dimension(&self) -> nat {
        self.spec_evaluation().output_dimension()
    }

    /// What the operator makes of the coefficient matrix `c` with `ncols` columns.
    pub open spec fn spec_translate(&self, c: Seq<Seq<T>>, ncols: nat) -> Seq<Seq<T>> {
        translated(
            self.spec_approximation().spec_map(),
            self.spec_evaluation().spec_map(),
            c,
            ncols,
        )
    }

    /// Whether every operation of translating the coefficient matrix `c` with
    /// `ncols` columns is defined.
    pub open spec fn translation_defined(&self, c: Seq<Seq<T>>, ncols: nat) -> bool {
        let approx = self.spec_approximation().spec_map();
        &&& product_defined(approx, c, ncols)
        &&& product_defined(
            self.spec_evaluation().spec_map(),
            matrix_product(approx, c, ncols),
            ncols,
        )
    }

    /// The composition of the two stages. Fails with `DimensionMismatch` unless
    /// the approximation's output feeds the evaluation's input.
    pub fn new(
        approximation_operator: FieldApproximationOperator<T>,
        evaluation_operator: NumericalEvaluationOperator<T>,
    ) -> (r: Result<NumericalTranslationOperator<T>, FieldError>)
        requires
            approximation_operator.wf(),
            evaluation_operator.wf(),
        ensures
            r is Ok <==> approximation_operator.output_dimension()
                == evaluation_operator.input_dimension(),
            r is Err ==> r == Err::<NumericalTranslationOperator<T>, FieldError>(
                FieldError::DimensionMismatch,
            ),
            r is Ok ==> {
                let op = r->Ok_0;
                &&& op.wf()
                &&& op.spec_approximation() == approximation_operator
                &&& op.spec_evaluation() == evaluation_operator
            },
    {
        if approximation_operator.output_size() != evaluation_operator.input_size() {
            return Err(FieldError::DimensionMismatch);
        }
        Ok(NumericalTranslationOperator { approximation_operator, evaluation_operator })
    }

    /// The contribution of `source` to the coefficients of `target`: the
    /// evaluation stage applied to the approximation stage applied to the
    /// source's coefficients. Fails with `DimensionMismatch` unless the source
    /// has `source_dimension()` coefficients and the target `target_dimension()`.
    pub fn approximate_in_target<S: Field<T>, U: Field<T>>(&self, source: &S, target: &U) -> (r:
        Result<Matrix<T>, FieldError>)
        requires
            self.wf(),
            source.field_wf(),
            target.field_wf(),
            source.spec_coefficient_dimension() == self.source_dimension()
                && target.spec_coefficient_dimension() == self.target_dimension()
                ==> self.translation_defined(
                source.spec_coefficients(),
                source.spec_number_of_coefficient_vectors(),
            ),
        ensures
            r is Ok <==> source.spec_coefficient_dimension() == self.source_dimension()
                && target.spec_coefficient_dimension() == self.target_dimension(),
            r is Err ==> r == Err::<Matrix<T>, FieldError>(FieldError::DimensionMismatch),
            r is Ok ==> {
                let m = r->Ok_0;
                &&& m.wf()
                &&& m.spec_nrows() == self.target_dimension()
                &&& m.spec_ncols() == source.spec_number_of_coefficient_vectors()
                &&& arithmetic_specified::<T>() ==> m@ == self.spec_translate(
                    source.spec_coefficients(),
                    source.spec_number_of_coefficient_vectors(),
                )
            },
    {
        if source.coefficient_dimension() != self.approximation_operator.input_size()
            || target.coefficient_dimension() != self.evaluation_operator.output_size() {
            return Err(FieldError::DimensionMismatch);
        }
        let coefficients = source.coefficients();
        let compressed = match self.approximation_operator.apply(&coefficients) {
            Ok(m) => m,
            Err(e) => return Err(e),
        };
        self.evaluation_operator.apply(&compressed)
    }
}

/// Whether adding `b` to `a` entry by entry is defined: either all additions
/// are, or the arithmetic is specified and each entry's sum is.
pub open spec fn accumulation_defined<T: Add<Output = T> + Mul<Output = T>>(
    a: Seq<Seq<T>>,
    b: Seq<Seq<T>>,
) -> bool {
    ||| arithmetic_total::<T>()
    ||| arithmetic_specified::<T>() && sum_defined(a, b)
}

/// Adds the contribution of `other`, translated by `operator`, to the
/// coefficients of `target`. The contribution is accumulated, never
/// substituted, so that a target can gather many sources. Fails with
/// `DimensionMismatch`, changing nothing, when `approximate_in_target` fails or
/// the two fields have different numbers of coefficient vectors.
pub fn translate_from<T: Copy + Add<Output = T> + Mul<Output = T>, S: Field<T>, U: Field<T>>(
    target: &mut U,
    operator: &NumericalTranslationOperator<T>,
    other: &S,
) -> (r: Result<(), FieldError>)
    requires
        operator.wf(),
        old(target).field_wf(),
        other.field_wf(),
        other.spec_coefficient_dimension() == operator.source_dimension()
            && old(target).spec_coefficient_dimension() == operator.target_dimension()
            && other.spec_number_of_coefficient_vectors()
            == old(target).spec_number_of_coefficient_vectors() ==> {
            &&& operator.translation_defined(
                other.spec_coefficients(),
                other.spec_number_of_coefficient_vectors(),
            )
            &&& accumulation_defined(
                old(target).spec_coefficients(),
                operator.spec_translate(
                    other.spec_coefficients(),
                    other.spec_number_of_coefficient_vectors(),
                ),
            )
        },
    ensures
        final(target).field_wf(),
        final(target).spec_index() == old(target).spec_index(),
        final(target).spec_coefficient_dimension() == old(target).spec_coefficient_dimension(),
        final(target).spec_number_of_coefficient_vectors()
            == old(target).spec_number_of_coefficient_vectors(),
        r is Ok <==> other.spec_coefficient_dimension() == operator.source_dimension()
            && old(target).spec_coefficient_dimension() == operator.target_dimension()
            && other.spec_number_of_coefficient_vectors()
            == old(target).spec_number_of_coefficient_vectors(),
        r is Err ==> r == Err::<(), FieldError>(FieldError::DimensionMismatch)
            && final(target).spec_coefficients() == old(target).spec_coefficients(),
        r is Ok && arithmetic_specified::<T>() ==> final(target).spec_coefficients() == matrix_sum(
            old(target).spec_coefficients(),
            operator.spec_translate(
                other.spec_coefficients(),
                other.spec_number_of_coefficient_vectors(),
            ),
        ),
{
    if other.number_of_coefficient_vectors() != target.number_of_coefficient_vectors() {
        return Err(FieldError::DimensionMismatch);
    }
    let contribution = match operator.approximate_in_target(other, &*target) {
        Ok(m) => m,
        Err(e) => return Err(e),
    };
    target.update_coefficients(&contribution)
}

/// Translation accumulates: translating two sources, one after the other, into
/// a target whose coefficients start at zero leaves the sum of the two
/// contributions.
pub proof fn lemma_translations_accumulate<T: Copy + Add<Output = T> + Mul<Output = T>>(
    operator: NumericalTranslationOperator<T>,
    zero: T,
    first_source: Seq<Seq<T>>,
    second_source: Seq<Seq<T>>,
    ncols: nat,
    start: Seq<Seq<T>>,
    after_first: Seq<Seq<T>>,
    after_second: Seq<Seq<T>>,
)
    requires
        T::obeys_add_spec(),
        forall|x: T| #[trigger] zero.add_spec(x) == x,
        has_shape(start, operator.target_dimension(), ncols),
        forall|i: int, j: int|
            0 <= i < start.len() && 0 <= j < ncols ==> #[trigger] start[i][j] == zero,
        after_first == matrix_sum(start, operator.spec_translate(first_source, ncols)),
        after_second == matrix_sum(after_first, operator.spec_translate(second_source, ncols)),
    ensures
        after_second == matrix_sum(
            operator.spec_translate(first_source, ncols),
            operator.spec_translate(second_source, ncols),
        ),
{
    let a = operator.spec_translate(first_source, ncols);
    let b = operator.spec_translate(second_source, ncols);
    assert(a.len() == start.len());
    assert forall|i: int| 0 <= i < start.len() implies #[trigger] after_second[i] =~= matrix_sum(
        a,
        b,
    )[i] by {
        assert(start[i].len() == ncols);
        assert forall|j: int| 0 <= j < ncols implies after_second[i][j] == #[trigger] matrix_sum(
            a,
            b,
        )[i][j] by {
            assert(start[i][j] == zero);
        }
    }
    assert(after_second =~= matrix_sum(a, b));
}

} // verus!
