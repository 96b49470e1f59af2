//! Dense row-major matrices over a generic scalar type.
use crate::error::FieldError;
use std::ops::{Add, Mul};
use vstd::prelude::*;
use vstd::std_specs::ops::{AddSpec, MulSpec};

verus! {

/// Whether `m` has `nrows` rows of `ncols` entries each.
pub open spec fn has_shape<T>(m: Seq<Seq<T>>, nrows: nat, ncols: nat) -> bool {
    &&& m.len() == nrows
    &&& forall|i: int| 0 <= i < m.len() ==> #[trigger] m[i].len() == ncols
}

/// The entry-wise sum of two matrices of equal shape.
pub open spec fn matrix_sum<T: Add<Output = T>>(a: Seq<Seq<T>>, b: Seq<Seq<T>>) -> Seq<Seq<T>> {
    Seq::new(a.len(), |i: int| Seq::new(a[i].len(), |j: int| a[i][j].add_spec(b[i][j])))
}

/// Whether every entry-wise sum of `a` and `b` is defined.
pub open spec fn sum_defined<T: Add<Output = T>>(a: Seq<Seq<T>>, b: Seq<Seq<T>>) -> bool {
    forall|i: int, j: int|
        0 <= i < a.len() && 0 <= j < a[i].len() ==> #[trigger] a[i][j].add_req(b[i][j])
}

/// `a[0] * b[0][j] + ... + a[k - 1] * b[k - 1][j]`, summed from the left.
pub open spec fn dot_prefix<T: Add<Output = T> + Mul<Output = T>>(
    a: Seq<T>,
    b: Seq<Seq<T>>,
    j: int,
    k: int,
) -> T
    decreases k,
{
    if k <= 1 {
        a[0].mul_spec(b[0][j])
    } else {
        dot_prefix(a, b, j, k - 1).add_spec(a[k - 1].mul_spec(b[k - 1][j]))
    }
}

/// The product of an `n x k` matrix `a` and a `k x ncols` matrix `b`, for `k >= 1`.
pub open spec fn matrix_product<T: Add<Output = T> + Mul<Output = T>>(
    a: Seq<Seq<T>>,
    b: Seq<Seq<T>>,
    ncols: nat,
) -> Seq<Seq<T>> {
    Seq::new(a.len(), |i: int| Seq::new(ncols, |j: int| dot_prefix(a[i], b, j, b.len() as int)))
}

/// Whether the scalar type's addition and multiplication compute their
/// specification functions.
pub open spec fn arithmetic_specified<T: Add<Output = T> + Mul<Output = T>>() -> bool {
    T::obeys_add_spec() && T::obeys_mul_spec()
}

/// Whether addition and multiplication of the scalar type are defined on all values.
pub open spec fn arithmetic_total<T: Add<Output = T> + Mul<Output = T>>() -> bool {
    &&& forall|x: T, y: T| #[trigger] x.add_req(y)
    &&& forall|x: T, y: T| #[trigger] x.mul_req(y)
}

/// Whether every operation of the product of `a` and `b` (with `ncols`
/// columns) is defined: either all additions and multiplications are, or the
/// arithmetic is specified and each product and partial sum is.
pub open spec fn product_defined<T: Add<Output = T> + Mul<Output = T>>(
    a: Seq<Seq<T>>,
    b: Seq<Seq<T>>,
    ncols: nat,
) -> bool {
    ||| arithmetic_total::<T>()
    ||| {
        &&& arithmetic_specified::<T>()
        &&& forall|i: int, j: int, k: int|
            0 <= i < a.len() && 0 <= j < ncols && 0 <= k < b.len() ==> #[trigger] a[i][k].mul_req(
                b[k][j],
            )
        &&& forall|i: int, j: int, k: int|
            0 <= i < a.len() && 0 <= j < ncols && 1 <= k < b.len() ==> #[trigger] dot_prefix(
                a[i],
                b,
                j,
                k,
            ).add_req(a[i][k].mul_spec(b[k][j]))
    }
}

/// A dense matrix stored row by row, with an explicit column count so that
/// matrices without rows still have a shape.
pub struct Matrix<T> {
    rows: Vec<Vec<T>>,
    ncols: usize,
}

impl<T> View for Matrix<T> {
    type V = Seq<Seq<T>>;

    closed spec fn view(&self) -> Seq<Seq<T>> {
        Seq::new(self.rows@.len(), |i: int| self.rows@[i]@)
    }
}

impl<T: Copy> Matrix<T> {
    /// The number of columns, also for a matrix without rows.
    pub closed spec fn spec_ncols(&self) -> nat {
        self.ncols as nat
    }

    /// The number of rows.
    pub open spec fn spec_nrows(&self) -> nat {
        self@.len()
    }

    /// Every row holds exactly `spec_ncols()` entries.
    pub open spec fn wf(&self) -> bool {
        has_shape(self@, self.spec_nrows(), self.spec_ncols())
    }

    /// A matrix of the given shape with every entry equal to `value`.
    pub fn filled(nrows: usize, ncols: usize, value: T) -> (r: Matrix<T>)
        ensures
            r.wf(),
            r.spec_nrows() == nrows,
            r.spec_ncols() == ncols,
            forall|i: int, j: int| 0 <= i < nrows && 0 <= j < ncols ==> #[trigger] r@[i][j] == value,
    {
        let mut rows: Vec<Vec<T>> = Vec::new();
        let mut i: usize = 0;
        while i < nrows
            invariant
                i <= nrows,
                rows@.len() == i,
                forall|a: int| 0 <= a < i ==> #[trigger] rows@[a]@.len() == ncols,
                forall|a: int, b: int| 0 <= a < i && 0 <= b < ncols ==> #[trigger] rows@[a]@[b] == value,
            decreases nrows - i,
        {
            let mut row: Vec<T> = Vec::new();
            let mut j: usize = 0;
            while j < ncols
                invariant
                    j <= ncols,
                    row@.len() == j,
                    forall|b: int| 0 <= b < j ==> #[trigger] row@[b] == value,
                decreases ncols - j,
            {
                row.push(value);
                j = j + 1;
            }
            rows.push(row);
            i = i + 1;
        }
        Matrix { rows, ncols }
    }

    /// A matrix with `ncols` columns from its rows; fails with `DimensionMismatch`
    /// if a row has another length.
    pub fn from_rows(ncols: usize, rows: Vec<Vec<T>>) -> (r: Result<Matrix<T>, FieldError>)
        ensures
            r is Ok <==> has_shape(rows@.map_values(|v: Vec<T>| v@), rows@.len(), ncols as nat),
            r is Ok ==> {
                let m = r->Ok_0;
                &&& m.wf()
                &&& m@ == rows@.map_values(|v: Vec<T>| v@)
                &&& m.spec_ncols() == ncols
            },
            r is Err ==> r == Err::<Matrix<T>, FieldError>(FieldError::DimensionMismatch),
    {
        let ghost seqs = rows@.map_values(|v: Vec<T>| v@);
        let mut i: usize = 0;
        while i < rows.len()
            invariant
                i <= rows@.len(),
                seqs == rows@.map_values(|v: Vec<T>| v@),
                forall|a: int| 0 <= a < i ==> #[trigger] seqs[a].len() == ncols,
            decreases rows@.len() - i,
        {
            if rows[i].len() != ncols {
                assert(!has_shape(seqs, rows@.len(), ncols as nat)) by {
                    assert(seqs[i as int].len() != ncols);
                }
                return Err(FieldError::DimensionMismatch);
            }
            i = i + 1;
        }
        let m = Matrix { rows, ncols };
        assert(m@ =~= seqs);
        Ok(m)
    }

    /// A matrix with `ncols` columns from rows that are known to have that length.
    pub fn from_shaped_rows(ncols: usize, rows: Vec<Vec<T>>) -> (r: Matrix<T>)
        requires
            has_shape(rows@.map_values(|v: Vec<T>| v@), rows@.len(), ncols as nat),
        ensures
            r.wf(),
            r@ == rows@.map_values(|v: Vec<T>| v@),
            r.spec_ncols() == ncols,
    {
        let r = Matrix { rows, ncols };
        assert(r@ =~= rows@.map_values(|v: Vec<T>| v@));
        r
    }

    /// The number of rows.
    pub fn nrows(&self) -> (r: usize)
        ensures
            r == self.spec_nrows(),
    {
        self.rows.len()
    }

    /// The number of columns.
    pub fn ncols(&self) -> (r: usize)
        ensures
            r == self.spec_ncols(),
    {
        self.ncols
    }

    /// The entry in row `i` and column `j`.
    pub fn get(&self, i: usize, j: usize) -> (r: T)
        requires
            self.wf(),
            i < self.spec_nrows(),
            j < self.spec_ncols(),
        ensures
            r == self@[i as int][j as int],
    {
        assert(self@[i as int].len() == self.spec_ncols());
        self.rows[i][j]
    }

    /// A copy of the rows.
    pub fn to_rows(&self) -> (r: Vec<Vec<T>>)
        ensures
            r@.map_values(|v: Vec<T>| v@) == self@,
    {
        let mut out: Vec<Vec<T>> = Vec::new();
        let mut i: usize = 0;
        while i < self.rows.len()
            invariant
                i <= self.rows@.len(),
                out@.len() == i,
                forall|a: int| 0 <= a < i ==> #[trigger] out@[a]@ == self.rows@[a]@,
            decreases self.rows@.len() - i,
        {
            let row = &self.rows[i];
            let mut copy: Vec<T> = Vec::new();
            let mut j: usize = 0;
            while j < row.len()
                invariant
                    j <= row@.len(),
                    copy@ == row@.subrange(0, j as int),
                decreases row@.len() - j,
            {
                copy.push(row[j]);
                j = j + 1;
                assert(copy@ =~= row@.subrange(0, j as int));
            }
            assert(copy@ =~= row@);
            out.push(copy);
            i = i + 1;
        }
        assert(out@.map_values(|v: Vec<T>| v@) =~= self@);
        out
    }

    /// A copy of the matrix.
    pub fn duplicate(&self) -> (r: Matrix<T>)
        ensures
            r@ == self@,
            r.spec_ncols() == self.spec_ncols(),
    {
        let rows = self.to_rows();
        let r = Matrix { rows, ncols: self.ncols };
        assert(r@ =~= self@);
        r
    }
}

impl<T: Copy + Add<Output = T>> Matrix<T> {
    /// The entry-wise sum of two matrices of the same shape.
    pub fn sum(&self, other: &Matrix<T>) -> (r: Matrix<T>)
        requires
            self.wf(),
            other.wf(),
            self.spec_nrows() == other.spec_nrows(),
            self.spec_ncols() == other.spec_ncols(),
            sum_defined(self@, other@),
        ensures
            r.wf(),
            r.spec_nrows() == self.spec_nrows(),
            r.spec_ncols() == self.spec_ncols(),
            T::obeys_add_spec() ==> r@ == matrix_sum(self@, other@),
    {
        let ghost n = self.spec_ncols();
        let mut rows: Vec<Vec<T>> = Vec::new();
        let mut i: usize = 0;
        while i < self.rows.len()
            invariant
                self.wf(),
                other.wf(),
                self.spec_nrows() == other.spec_nrows(),
                self.spec_ncols() == other.spec_ncols(),
                n == self.spec_ncols(),
                sum_defined(self@, other@),
                i <= self.rows@.len(),
                rows@.len() == i,
                forall|a: int| 0 <= a < i ==> #[trigger] rows@[a]@.len() == n,
                T::obeys_add_spec() ==> forall|a: int, b: int|
                    0 <= a < i && 0 <= b < n ==> #[trigger] rows@[a]@[b] == self@[a][b].add_spec(
                        other@[a][b],
                    ),
            decreases self.rows@.len() - i,
        {
            assert(self@[i as int].len() == n);
            assert(other@[i as int].len() == n);
            let left = &self.rows[i];
            let right = &other.rows[i];
            let mut row: Vec<T> = Vec::new();
            let mut j: usize = 0;
            while j < self.ncols
                invariant
                    left@ == self@[i as int],
                    right@ == other@[i as int],
                    left@.len() == n,
                    right@.len() == n,
                    n == self.ncols,
                    i < self@.len(),
                    sum_defined(self@, other@),
                    j <= n,
                    row@.len() == j,
                    T::obeys_add_spec() ==> forall|b: int|
                        0 <= b < j ==> #[trigger] row@[b] == left@[b].add_spec(right@[b]),
                decreases n - j,
            {
                assert(self@[i as int][j as int].add_req(other@[i as int][j as int]));
                row.push(left[j] + right[j]);
                j = j + 1;
            }
            rows.push(row);
            i = i + 1;
        }
        let r = Matrix { rows, ncols: self.ncols };
        proof {
            if T::obeys_add_spec() {
                assert(r@ =~= matrix_sum(self@, other@)) by {
                    assert forall|a: int| 0 <= a < r@.len() implies #[trigger] r@[a]
                        =~= matrix_sum(self@, other@)[a] by {
                        assert(self@[a].len() == n);
                    }
                }
            }
        }
        r
    }
}

impl<T: Copy + Add<Output = T> + Mul<Output = T>> Matrix<T> {
    /// The matrix product `self * other`, for a positive inner dimension.
    pub fn product(&self, other: &Matrix<T>) -> (r: Matrix<T>)
        requires
            self.wf(),
            other.wf(),
            self.spec_ncols() == other.spec_nrows(),
            other.spec_nrows() >= 1,
            product_defined(self@, other@, other.spec_ncols()),
        ensures
            r.wf(),
            r.spec_nrows() == self.spec_nrows(),
            r.spec_ncols() == other.spec_ncols(),
            arithmetic_specified::<T>() ==> r@ == matrix_product(self@, other@, other.spec_ncols()),
    {
        let ghost spec = arithmetic_specified::<T>();
        let inner: usize = self.ncols;
        let mut rows: Vec<Vec<T>> = Vec::new();
        let mut i: usize = 0;
        while i < self.rows.len()
            invariant
                self.wf(),
                other.wf(),
                inner == self.spec_ncols(),
                inner == other.spec_nrows(),
                inner >= 1,
                product_defined(self@, other@, other.spec_ncols()),
                spec == arithmetic_specified::<T>(),
                i <= self.rows@.len(),
                rows@.len() == i,
                forall|a: int| 0 <= a < i ==> #[trigger] rows@[a]@.len() == other.spec_ncols(),
                spec ==> forall|a: int, b: int|
                    0 <= a < i && 0 <= b < other.spec_ncols() ==> #[trigger] rows@[a]@[b]
                        == dot_prefix(self@[a], other@, b, inner as int),
            decreases self.rows@.len() - i,
        {
            assert(self@[i as int].len() == inner);
            let left = &self.rows[i];
            let mut row: Vec<T> = Vec::new();
            let mut j: usize = 0;
            while j < other.ncols
                invariant
                    self.wf(),
                    other.wf(),
                    left@ == self@[i as int],
                    left@.len() == inner,
                    inner == other.spec_nrows(),
                    inner >= 1,
                    i < self@.len(),
                    product_defined(self@, other@, other.spec_ncols()),
                    spec == arithmetic_specified::<T>(),
                    j <= other.spec_ncols(),
                    row@.len() == j,
                    spec ==> forall|b: int|
                        0 <= b < j ==> #[trigger] row@[b] == dot_prefix(left@, other@, b, inner as int),
                decreases other.spec_ncols() - j,
            {
                assert(other@[0].len() == other.spec_ncols());
                let mut acc: T = left[0] * other.rows[0][j];
                let mut k: usize = 1;
                while k < inner
                    invariant
                        other.wf(),
                        left@.len() == inner,
                        inner == other.spec_nrows(),
                        1 <= k <= inner,
                        j < other.spec_ncols(),
                        left@ == self@[i as int],
                        i < self@.len(),
                        product_defined(self@, other@, other.spec_ncols()),
                        spec == arithmetic_specified::<T>(),
                        spec ==> acc == dot_prefix(left@, other@, j as int, k as int),
                    decreases inner - k,
                {
                    assert(other@[k as int].len() == other.spec_ncols());
                    let term: T = left[k] * other.rows[k][j];
                    proof {
                        if !arithmetic_total::<T>() {
                            assert(dot_prefix(self@[i as int], other@, j as int, k as int).add_req(
                                self@[i as int][k as int].mul_spec(other@[k as int][j as int]),
                            ));
                        }
                    }
                    acc = acc + term;
                    k = k + 1;
                }
                row.push(acc);
                j = j + 1;
            }
            rows.push(row);
            i = i + 1;
        }
        let r = Matrix { rows, ncols: other.ncols };
        proof {
            if spec {
                assert(r@ =~= matrix_product(self@, other@, other.spec_ncols())) by {
                    assert forall|a: int| 0 <= a < r@.len() implies #[trigger] r@[a]
                        =~= matrix_product(self@, other@, other.spec_ncols())[a] by {}
                }
            }
        }
        r
    }
}

} // verus!
