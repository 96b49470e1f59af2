//! The field capability and a field produced by a fixed set of point sources.
use crate::error::FieldError;
use crate::matrix::{has_shape, matrix_sum, sum_defined, Matrix};
use std::ops::Add;
use vstd::prelude::*;
use vstd::std_specs::ops::AddSpec;

verus! {

/// What an evaluation of a field computes.
#[derive(Debug, Clone, Copy, PartialEq, Eq, Structural)]
pub enum EvalMode {
    /// Field values only.
    Value,
    /// Field values and their gradient in x, y and z.
    ValueGrad,
}

/// Entries along the last axis of an evaluation: the value, then for
/// `ValueGrad` the three partial derivatives.
pub open spec fn values_per_component(mode: EvalMode) -> nat {
    match mode {
        EvalMode::Value => 1,
        EvalMode::ValueGrad => 4,
    }
}

/// A field described by a coefficient matrix with one column per coefficient
/// vector.
pub trait Field<T: Copy + Add<Output = T>>: Sized {
    /// The coefficient matrix.
    spec fn spec_coefficients(&self) -> Seq<Seq<T>>;

    /// The number of rows of the coefficient matrix; fixed for the field's life.
    spec fn spec_coefficient_dimension(&self) -> nat;

    /// The number of columns of the coefficient matrix.
    spec fn spec_number_of_coefficient_vectors(&self) -> nat;

    /// The identifier of the box that owns the field.
    spec fn spec_index(&self) -> usize;

    /// The number of components of the field: 1 for a scalar field.
    spec fn spec_space_dimension(&self) -> nat;

    /// The field's invariant; it holds the coefficient matrix to its shape.
    spec fn field_wf(&self) -> bool;

    /// A copy of the coefficient matrix.
    fn coefficients(&self) -> (r: Matrix<T>)
        requires
            self.field_wf(),
        ensures
            r.wf(),
            r@ == self.spec_coefficients(),
            r.spec_ncols() == self.spec_number_of_coefficient_vectors(),
            has_shape(
                self.spec_coefficients(),
                self.spec_coefficient_dimension(),
                self.spec_number_of_coefficient_vectors(),
            ),
    ;

    /// The identifier of the box that owns the field.
    fn index(&self) -> (r: usize)
        ensures
            r == self.spec_index(),
    ;

    /// The number of coefficient vectors.
    fn number_of_coefficient_vectors(&self) -> (r: usize)
        requires
            self.field_wf(),
        ensures
            r == self.spec_number_of_coefficient_vectors(),
    ;

    /// The number of coefficients in each coefficient vector.
    fn coefficient_dimension(&self) -> (r: usize)
        requires
            self.field_wf(),
        ensures
            r == self.spec_coefficient_dimension(),
    ;

    /// The number of components of the field.
    fn space_dimension(&self) -> (r: usize)
        ensures
            r == self.spec_space_dimension(),
    ;

    /// Adds `delta` to the coefficients, entry by entry. Fails with
    /// `DimensionMismatch`, changing nothing, unless `delta` has the shape of the
    /// coefficient matrix.
    fn update_coefficients(&mut self, delta: &Matrix<T>) -> (r: Result<(), FieldError>)
        requires
            old(self).field_wf(),
            delta.wf(),
            delta.spec_nrows() == old(self).spec_coefficient_dimension()
                && delta.spec_ncols() == old(self).spec_number_of_coefficient_vectors()
                ==> sum_defined(old(self).spec_coefficients(), delta@),
        ensures
            final(self).field_wf(),
            final(self).spec_index() == old(self).spec_index(),
            final(self).spec_space_dimension() == old(self).spec_space_dimension(),
            final(self).spec_coefficient_dimension() == old(self).spec_coefficient_dimension(),
            final(self).spec_number_of_coefficient_vectors()
                == old(self).spec_number_of_coefficient_vectors(),
            r is Ok <==> delta.spec_nrows() == old(self).spec_coefficient_dimension()
                && delta.spec_ncols() == old(self).spec_number_of_coefficient_vectors(),
            r is Err ==> r == Err::<(), FieldError>(FieldError::DimensionMismatch)
                && final(self).spec_coefficients() == old(self).spec_coefficients(),
            r is Ok && T::obeys_add_spec() ==> final(self).spec_coefficients() == matrix_sum(
                old(self).spec_coefficients(),
                delta@,
            ),
    ;

    /// Replaces the coefficients by `coefficients`, whose number of columns may
    /// differ from the current one. Fails with `DimensionMismatch`, changing
    /// nothing, unless it has `coefficient_dimension()` rows.
    fn set_coefficients(&mut self, coefficients: &Matrix<T>) -> (r: Result<(), FieldError>)
        requires
            old(self).field_wf(),
            coefficients.wf(),
        ensures
            final(self).field_wf(),
            final(self).spec_index() == old(self).spec_index(),
            final(self).spec_space_dimension() == old(self).spec_space_dimension(),
            final(self).spec_coefficient_dimension() == old(self).spec_coefficient_dimension(),
            r is Ok <==> coefficients.spec_nrows() == old(self).spec_coefficient_dimension(),
            r is Ok ==> final(self).spec_coefficients() == coefficients@
                && final(self).spec_number_of_coefficient_vectors() == coefficients.spec_ncols(),
            r is Err ==> r == Err::<(), FieldError>(FieldError::DimensionMismatch)
                && final(self).spec_coefficients() == old(self).spec_coefficients()
                && final(self).spec_number_of_coefficient_vectors()
                == old(self).spec_number_of_coefficient_vectors(),
    ;
}

/// The shape `(coefficient vectors, targets, components, values)` of an
/// evaluation of `field` at `npoints` targets under `mode`. Fails with
/// `InvalidInput` when there are no targets.
pub fn evaluation_shape<T: Copy + Add<Output = T>, F: Field<T>>(
    field: &F,
    npoints: usize,
    mode: EvalMode,
) -> (r: Result<(usize, usize, usize, usize), FieldError>)
    requires
        field.field_wf(),
    ensures
        r is Err <==> npoints == 0,
        r is Err ==> r == Err::<(usize, usize, usize, usize), FieldError>(FieldError::InvalidInput),
        r is Ok ==> r->Ok_0 == (
            field.spec_number_of_coefficient_vectors() as usize,
            npoints,
            field.spec_space_dimension() as usize,
            values_per_component(mode) as usize,
        ),
{
    if npoints == 0 {
        return Err(FieldError::InvalidInput);
    }
    let values: usize = match mode {
        EvalMode::Value => 1,
        EvalMode::ValueGrad => 4,
    };
    Ok((field.number_of_coefficient_vectors(), npoints, field.space_dimension(), values))
}

/// The potential of point sources: the `j`-th column of the coefficient matrix
/// holds one strength per source point.
pub struct LaplaceFieldFromSources<T> {
    sources: Matrix<T>,
    coefficients: Matrix<T>,
    index: usize,
}

impl<T: Copy + Add<Output = T>> LaplaceFieldFromSources<T> {
    /// A field of the sources in the columns of the `3 x M` matrix `sources`,
    /// with an `M`-row coefficient matrix, owned by box `index`.
    pub fn new(sources: &Matrix<T>, coefficients: &Matrix<T>, index: usize) -> (r:
        LaplaceFieldFromSources<T>)
        requires
            sources.wf(),
            coefficients.wf(),
            sources.spec_nrows() == 3,
            coefficients.spec_nrows() == sources.spec_ncols(),
        ensures
            r.field_wf(),
            r.spec_sources() == sources@,
            r.spec_number_of_sources() == sources.spec_ncols(),
            r.spec_coefficients() == coefficients@,
            r.spec_number_of_coefficient_vectors() == coefficients.spec_ncols(),
            r.spec_index() == index,
    {
        LaplaceFieldFromSources {
            sources: sources.duplicate(),
            coefficients: coefficients.duplicate(),
            index,
        }
    }

    /// The source points, one per column.
    pub closed spec fn spec_sources(&self) -> Seq<Seq<T>> {
        self.sources@
    }

    /// The number of source points.
    pub closed spec fn spec_number_of_sources(&self) -> nat {
        self.sources.spec_ncols()
    }

    /// The source points, one per column of a `3 x M` matrix.
    pub fn sources(&self) -> (r: &Matrix<T>)
        requires
            self.field_wf(),
        ensures
            r.wf(),
            r.spec_nrows() == 3,
            r@ == self.spec_sources(),
            r.spec_ncols() == self.spec_number_of_sources(),
    {
        &self.sources
    }
}

impl<T: Copy + Add<Output = T>> Field<T> for LaplaceFieldFromSources<T> {
    closed spec fn spec_coefficients(&self) -> Seq<Seq<T>> {
        self.coefficients@
    }

    closed spec fn spec_coefficient_dimension(&self) -> nat {
        self.sources.spec_ncols()
    }

    closed spec fn spec_number_of_coefficient_vectors(&self) -> nat {
        self.coefficients.spec_ncols()
    }

    closed spec fn spec_index(&self) -> usize {
        self.index
    }

    open spec fn spec_space_dimension(&self) -> nat {
        1
    }

    closed spec fn field_wf(&self) -> bool {
        &&& self.sources.wf()
        &&& self.sources.spec_nrows() == 3
        &&& self.coefficients.wf()
        &&& self.coefficients.spec_nrows() == self.sources.spec_ncols()
    }

    fn coefficients(&self) -> (r: Matrix<T>) {
        self.coefficients.duplicate()
    }

    fn index(&self) -> (r: usize) {
        self.index
    }

    fn number_of_coefficient_vectors(&self) -> (r: usize) {
        self.coefficients.ncols()
    }

    fn coefficient_dimension(&self) -> (r: usize) {
        self.coefficients.nrows()
    }

    fn space_dimension(&self) -> (r: usize) {
        1
    }

    fn update_coefficients(&mut self, delta: &Matrix<T>) -> (r: Result<(), FieldError>) {
        if delta.nrows() != self.coefficients.nrows() || delta.ncols()
            != self.coefficients.ncols() {
            return Err(FieldError::DimensionMismatch);
        }
        self.coefficients = self.coefficients.sum(delta);
        Ok(())
    }

    fn set_coefficients(&mut self, coefficients: &Matrix<T>) -> (r: Result<(), FieldError>) {
        if coefficients.nrows() != self.coefficients.nrows() {
            return Err(FieldError::DimensionMismatch);
        }
        self.coefficients = coefficients.duplicate();
        Ok(())
    }
}

/// Updating adds entry by entry: the coefficients read back after a successful
/// `update_coefficients(delta)` are the earlier ones plus `delta`, each entry
/// with its counterpart, and keep the shape.
pub proof fn lemma_update_adds_entrywise<T: Copy + Add<Output = T>>(
    before: Seq<Seq<T>>,
    delta: Seq<Seq<T>>,
    after: Seq<Seq<T>>,
    nrows: nat,
    ncols: nat,
)
    requires
        has_shape(before, nrows, ncols),
        has_shape(delta, nrows, ncols),
        after == matrix_sum(before, delta),
    ensures
        has_shape(after, nrows, ncols),
        forall|i: int, j: int|
            0 <= i < nrows && 0 <= j < ncols ==> #[trigger] after[i][j] == before[i][j].add_spec(
                delta[i][j],
            ),
{
    assert forall|i: int, j: int| 0 <= i < nrows && 0 <= j < ncols implies #[trigger] after[i][j]
        == before[i][j].add_spec(delta[i][j]) by {
        assert(before[i].len() == ncols);
    }
    assert forall|i: int| 0 <= i < after.len() implies #[trigger] after[i].len() == ncols by {
        assert(before[i].len() == ncols);
    }
}

} // verus!
