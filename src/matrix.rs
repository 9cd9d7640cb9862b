//! A dense row-major matrix of `i64` with shape-checked arithmetic.

use crate::error::ShapeError;
use crate::scalar::{
    acc_fits, add_fits, dot_fits, dot_onto, dot_prefix, dot_seq, fits, ints, lemma_pairwise_named,
    mul_fits, pairwise, pairwise_fits, pairwise_seq, seq_add, seq_mul, seq_sub, sub_fits, zero,
    Pairwise,
};
use vstd::prelude::*;

verus! {

/// Number of rows of a matrix model.
pub open spec fn nrows(m: Seq<Seq<int>>) -> int {
    m.len() as int
}

/// Number of columns of a matrix model (that of its first row).
pub open spec fn ncols(m: Seq<Seq<int>>) -> int {
    if m.len() > 0 {
        m[0].len() as int
    } else {
        0
    }
}

/// A non-empty rectangular model: at least one row and one column, and every
/// row as long as the first.
pub open spec fn shaped(m: Seq<Seq<int>>) -> bool {
    &&& nrows(m) > 0
    &&& ncols(m) > 0
    &&& forall|i: int| 0 <= i < m.len() ==> (#[trigger] m[i]).len() == ncols(m)
}

/// Two models with the same number of rows and of columns.
pub open spec fn same_shape(a: Seq<Seq<int>>, b: Seq<Seq<int>>) -> bool {
    nrows(a) == nrows(b) && ncols(a) == ncols(b)
}

/// The exact values of rows of `i64`.
pub open spec fn rows_view(rows: Seq<Vec<i64>>) -> Seq<Seq<int>> {
    rows.map_values(|r: Vec<i64>| ints(r@))
}

/// The `r` by `c` matrix whose every entry is `v`.
pub open spec fn filled(r: nat, c: nat, v: int) -> Seq<Seq<int>> {
    Seq::new(r, |i: int| Seq::new(c, |j: int| v))
}

/// The `r` by `c` zero matrix.
pub open spec fn zeros(r: nat, c: nat) -> Seq<Seq<int>> {
    filled(r, c, 0)
}

/// The `n` by `n` identity matrix.
pub open spec fn identity(n: nat) -> Seq<Seq<int>> {
    Seq::new(n, |i: int| Seq::new(n, |j: int| if i == j { 1int } else { 0int }))
}

/// Column `j` of a matrix model.
pub open spec fn column(m: Seq<Seq<int>>, j: int) -> Seq<int> {
    Seq::new(m.len(), |k: int| m[k][j])
}

/// Matrix product: entry `(i, j)` is the dot product of row `i` of `a` and
/// column `j` of `b`.
pub open spec fn mat_mul(a: Seq<Seq<int>>, b: Seq<Seq<int>>) -> Seq<Seq<int>> {
    Seq::new(a.len(), |i: int| Seq::new(ncols(b) as nat, |j: int| dot_seq(a[i], column(b, j))))
}

/// Entrywise sum.
pub open spec fn mat_add(a: Seq<Seq<int>>, b: Seq<Seq<int>>) -> Seq<Seq<int>> {
    Seq::new(a.len(), |i: int| seq_add(a[i], b[i]))
}

/// Entrywise difference.
pub open spec fn mat_sub(a: Seq<Seq<int>>, b: Seq<Seq<int>>) -> Seq<Seq<int>> {
    Seq::new(a.len(), |i: int| seq_sub(a[i], b[i]))
}

/// Entrywise (Hadamard) product.
pub open spec fn mat_prod(a: Seq<Seq<int>>, b: Seq<Seq<int>>) -> Seq<Seq<int>> {
    Seq::new(a.len(), |i: int| seq_mul(a[i], b[i]))
}

/// Sum of the entrywise products of the first `n` rows, row by row.
pub open spec fn frob_prefix(a: Seq<Seq<int>>, b: Seq<Seq<int>>, n: nat) -> int
    decreases n,
{
    if n == 0 {
        0
    } else {
        frob_prefix(a, b, (n - 1) as nat) + dot_seq(a[n - 1], b[n - 1])
    }
}

/// Frobenius inner product: the sum of all entrywise products.
pub open spec fn mat_dot(a: Seq<Seq<int>>, b: Seq<Seq<int>>) -> int {
    frob_prefix(a, b, a.len())
}

/// Every entry of the product of `a` and `b` can be accumulated within `i64`.
pub open spec fn mult_fits(a: Seq<Seq<int>>, b: Seq<Seq<int>>) -> bool {
    forall|i: int, j: int|
        0 <= i < nrows(a) && 0 <= j < ncols(b) ==> dot_fits(#[trigger] a[i], #[trigger] column(b, j))
}

/// Every entrywise sum fits in `i64`.
pub open spec fn mat_add_fits(a: Seq<Seq<int>>, b: Seq<Seq<int>>) -> bool {
    forall|i: int| 0 <= i < a.len() ==> add_fits(#[trigger] a[i], b[i])
}

/// Every entrywise difference fits in `i64`.
pub open spec fn mat_sub_fits(a: Seq<Seq<int>>, b: Seq<Seq<int>>) -> bool {
    forall|i: int| 0 <= i < a.len() ==> sub_fits(#[trigger] a[i], b[i])
}

/// Every entrywise product fits in `i64`.
pub open spec fn mat_prod_fits(a: Seq<Seq<int>>, b: Seq<Seq<int>>) -> bool {
    forall|i: int| 0 <= i < a.len() ==> mul_fits(#[trigger] a[i], b[i])
}

/// The Frobenius inner product, accumulated in row-major order, keeps every
/// product and every running total within `i64`.
pub open spec fn mat_dot_fits(a: Seq<Seq<int>>, b: Seq<Seq<int>>) -> bool {
    forall|i: int| 0 <= i < a.len() ==> acc_fits(frob_prefix(a, b, i as nat), #[trigger] a[i], b[i])
}

/// The error reported when the shapes of `a` and `b` do not fit an operation.
pub open spec fn mismatch(a: Seq<Seq<int>>, b: Seq<Seq<int>>) -> ShapeError {
    ShapeError::ShapeMismatch {
        left_rows: nrows(a) as usize,
        left_cols: ncols(a) as usize,
        right_rows: nrows(b) as usize,
        right_cols: ncols(b) as usize,
    }
}

/// `op` applied entrywise to two models, row by row.
pub open spec fn mat_pairwise(op: Pairwise, a: Seq<Seq<int>>, b: Seq<Seq<int>>) -> Seq<Seq<int>> {
    Seq::new(a.len(), |i: int| pairwise_seq(op, a[i], b[i]))
}

/// Row `k` is the first whose length differs from that of row 0.
pub open spec fn first_ragged(rows: Seq<Vec<i64>>, k: int) -> bool {
    &&& 0 < k < rows.len()
    &&& rows[k]@.len() != rows[0]@.len()
    &&& forall|l: int| 0 <= l < k ==> (#[trigger] rows[l])@.len() == rows[0]@.len()
}

/// A copy of a row.
fn copy_row(src: &[i64]) -> (r: Vec<i64>)
    ensures
        r@ == src@,
{
    let mut out: Vec<i64> = Vec::with_capacity(src.len());
    let mut i: usize = 0;
    while i < src.len()
        invariant
            i <= src@.len(),
            out@ == src@.subrange(0, i as int),
        decreases src@.len() - i,
    {
        out.push(src[i]);
        i = i + 1;
        assert(out@ =~= src@.subrange(0, i as int));
    }
    assert(out@ =~= src@);
    out
}

/// A rectangular matrix of `i64` with at least one row and one column, stored
/// row by row.
#[derive(Debug, Clone)]
pub struct Matrix {
    rows: usize,
    cols: usize,
    data: Vec<Vec<i64>>,
}

impl View for Matrix {
    type V = Seq<Seq<int>>;

    closed spec fn view(&self) -> Seq<Seq<int>> {
        rows_view(self.data@)
    }
}

impl Matrix {
    /// The stored dimensions agree with the rows, which are all equally long
    /// and not empty.
    pub closed spec fn wf(&self) -> bool {
        &&& self.rows > 0
        &&& self.cols > 0
        &&& self.data@.len() == self.rows
        &&& forall|i: int| 0 <= i < self.rows ==> (#[trigger] self.data@[i])@.len() == self.cols
    }

    /// A well-formed matrix has a rectangular, non-empty model.
    pub proof fn lemma_wf_shaped(&self)
        requires
            self.wf(),
        ensures
            shaped(self@),
    {
        assert(self@[0].len() == self.cols);
        assert forall|i: int| 0 <= i < self@.len() implies (#[trigger] self@[i]).len() == ncols(self@) by {
            assert(self.data@[i]@.len() == self.cols);
        }
    }

    /// The matrix of the given shape whose every entry is `v`; fails when
    /// either dimension is zero.
    pub fn new_with(rows: usize, cols: usize, v: i64) -> (r: Result<Matrix, ShapeError>)
        ensures
            rows == 0 || cols == 0 <==> r is Err,
            r is Err ==> r == Err::<Matrix, ShapeError>(ShapeError::ZeroDimension { rows, cols }),
            r matches Ok(m) ==> m.wf() && m@ == filled(rows as nat, cols as nat, v as int),
    {
        if rows == 0 || cols == 0 {
            return Err(ShapeError::ZeroDimension { rows, cols });
        }
        let mut data: Vec<Vec<i64>> = Vec::with_capacity(rows);
        let mut i: usize = 0;
        while i < rows
            invariant
                i <= rows,
                data@.len() == i,
                forall|k: int| 0 <= k < i ==> (#[trigger] data@[k])@ == Seq::new(cols as nat, |j: int| v),
            decreases rows - i,
        {
            let mut row: Vec<i64> = Vec::with_capacity(cols);
            let mut j: usize = 0;
            while j < cols
                invariant
                    j <= cols,
                    row@ == Seq::new(j as nat, |c: int| v),
                decreases cols - j,
            {
                row.push(v);
                j = j + 1;
                assert(row@ =~= Seq::new(j as nat, |c: int| v));
            }
            data.push(row);
            i = i + 1;
        }
        let m = Matrix { rows, cols, data };
        assert(m@ =~~= filled(rows as nat, cols as nat, v as int));
        Ok(m)
    }

    /// The zero matrix of the given shape; fails when either dimension is zero.
    pub fn new_empty(rows: usize, cols: usize) -> (r: Result<Matrix, ShapeError>)
        ensures
            rows == 0 || cols == 0 <==> r is Err,
            r is Err ==> r == Err::<Matrix, ShapeError>(ShapeError::ZeroDimension { rows, cols }),
            r matches Ok(m) ==> m.wf() && m@ == zeros(rows as nat, cols as nat),
    {
        Matrix::new_with(rows, cols, zero())
    }

    /// Entry `(row, col)` of the product of `m1` and `m2`, accumulated from
    /// zero in increasing inner index.
    fn mult_cell(m1: &Matrix, m2: &Matrix, row: usize, col: usize) -> (r: i64)
        requires
            m1.wf(),
            m2.wf(),
            m1.cols == m2.rows,
            row < m1.rows,
            col < m2.cols,
            dot_fits(m1@[row as int], column(m2@, col as int)),
        ensures
            r == dot_seq(m1@[row as int], column(m2@, col as int)),
    {
        let ghost u = m1@[row as int];
        let ghost v = column(m2@, col as int);
        assert(m1.data@[row as int]@.len() == m1.cols);
        let mut acc: i64 = zero();
        let mut k: usize = 0;
        while k < m1.cols
            invariant
                m1.wf(),
                m2.wf(),
                m1.cols == m2.rows,
                row < m1.rows,
                col < m2.cols,
                u == m1@[row as int],
                v == column(m2@, col as int),
                u.len() == m1.cols,
                dot_fits(u, v),
                k <= m1.cols,
                acc == dot_prefix(u, v, k as nat),
            decreases m1.cols - k,
        {
            assert(fits(seq_mul(u, v)[k as int]));
            assert(m2.data@[k as int]@.len() == m2.cols);
            let p: i64 = m1.data[row][k] * m2.data[k][col];
            acc = acc + p;
            k = k + 1;
        }
        acc
    }

    /// Matrix product of `m1` and `m2`; fails when the columns of `m1` do not
    /// match the rows of `m2`. Each entry is accumulated from zero in
    /// increasing inner index.
    pub fn mult(m1: &Matrix, m2: &Matrix) -> (r: Result<Matrix, ShapeError>)
        requires
            m1.wf(),
            m2.wf(),
            ncols(m1@) == nrows(m2@) ==> mult_fits(m1@, m2@),
        ensures
            r is Ok <==> ncols(m1@) == nrows(m2@),
            r is Err ==> r == Err::<Matrix, ShapeError>(mismatch(m1@, m2@)),
            r matches Ok(m) ==> m.wf() && m@ == mat_mul(m1@, m2@),
    {
        proof {
            m1.lemma_wf_shaped();
            m2.lemma_wf_shaped();
        }
        if m1.cols != m2.rows {
            return Err(ShapeError::ShapeMismatch {
                left_rows: m1.rows,
                left_cols: m1.cols,
                right_rows: m2.rows,
                right_cols: m2.cols,
            });
        }
        let ghost prod = mat_mul(m1@, m2@);
        let mut data: Vec<Vec<i64>> = Vec::with_capacity(m1.rows);
        let mut row: usize = 0;
        while row < m1.rows
            invariant
                m1.wf(),
                m2.wf(),
                shaped(m1@),
                shaped(m2@),
                m1.cols == m2.rows,
                mult_fits(m1@, m2@),
                prod == mat_mul(m1@, m2@),
                row <= m1.rows,
                data@.len() == row,
                forall|i: int| 0 <= i < row ==> ints((#[trigger] data@[i])@) == prod[i],
            decreases m1.rows - row,
        {
            let mut out: Vec<i64> = Vec::with_capacity(m2.cols);
            let mut col: usize = 0;
            while col < m2.cols
                invariant
                    m1.wf(),
                    m2.wf(),
                    shaped(m1@),
                    shaped(m2@),
                    m1.cols == m2.rows,
                    mult_fits(m1@, m2@),
                    prod == mat_mul(m1@, m2@),
                    row < m1.rows,
                    col <= m2.cols,
                    out@.len() == col,
                    forall|j: int| 0 <= j < col ==> (#[trigger] out@[j]) == prod[row as int][j],
                decreases m2.cols - col,
            {
                let x = Matrix::mult_cell(m1, m2, row, col);
                out.push(x);
                col = col + 1;
            }
            assert(ints(out@) =~= prod[row as int]);
            data.push(out);
            row = row + 1;
        }
        let m = Matrix { rows: m1.rows, cols: m2.cols, data };
        assert(m@ =~= prod);
        Ok(m)
    }

    /// `op` applied entrywise to two matrices of the same shape.
    fn zip_rows(m1: &Matrix, m2: &Matrix, op: Pairwise) -> (r: Matrix)
        requires
            m1.wf(),
            m2.wf(),
            m1.rows == m2.rows,
            m1.cols == m2.cols,
            forall|i: int| 0 <= i < m1@.len() ==> pairwise_fits(op, #[trigger] m1@[i], m2@[i]),
        ensures
            r.wf(),
            r@ == mat_pairwise(op, m1@, m2@),
    {
        let ghost want = mat_pairwise(op, m1@, m2@);
        let mut data: Vec<Vec<i64>> = Vec::with_capacity(m1.rows);
        let mut row: usize = 0;
        while row < m1.rows
            invariant
                m1.wf(),
                m2.wf(),
                m1.rows == m2.rows,
                m1.cols == m2.cols,
                forall|i: int| 0 <= i < m1@.len() ==> pairwise_fits(op, #[trigger] m1@[i], m2@[i]),
                want == mat_pairwise(op, m1@, m2@),
                row <= m1.rows,
                data@.len() == row,
                forall|i: int|
                    0 <= i < row ==> (#[trigger] data@[i])@.len() == m1.cols && ints(data@[i]@) == want[i],
            decreases m1.rows - row,
        {
            assert(m1.data@[row as int]@.len() == m1.cols);
            assert(m2.data@[row as int]@.len() == m2.cols);
            assert(pairwise_fits(op, m1@[row as int], m2@[row as int]));
            let out = pairwise(op, m1.data[row].as_slice(), m2.data[row].as_slice());
            assert(out@.len() == ints(out@).len());
            data.push(out);
            row = row + 1;
        }
        let m = Matrix { rows: m1.rows, cols: m1.cols, data };
        assert(m@ =~= want);
        m
    }

    /// Entrywise sum of two matrices of the same shape; fails when the
    /// shapes differ.
    pub fn add(m1: &Matrix, m2: &Matrix) -> (r: Result<Matrix, ShapeError>)
        requires
            m1.wf(),
            m2.wf(),
            same_shape(m1@, m2@) ==> mat_add_fits(m1@, m2@),
        ensures
            r is Ok <==> same_shape(m1@, m2@),
            r is Err ==> r == Err::<Matrix, ShapeError>(mismatch(m1@, m2@)),
            r matches Ok(m) ==> m.wf() && m@ == mat_add(m1@, m2@),
    {
        proof {
            m1.lemma_wf_shaped();
            m2.lemma_wf_shaped();
        }
        if m1.rows != m2.rows || m1.cols != m2.cols {
            return Err(ShapeError::ShapeMismatch {
                left_rows: m1.rows,
                left_cols: m1.cols,
                right_rows: m2.rows,
                right_cols: m2.cols,
            });
        }
        proof {
            assert forall|i: int| 0 <= i < m1@.len() implies pairwise_fits(
                Pairwise::Add,
                #[trigger] m1@[i],
                m2@[i],
            ) by {
                lemma_pairwise_named(m1@[i], m2@[i]);
            }
        }
        let m = Matrix::zip_rows(m1, m2, Pairwise::Add);
        proof {
            assert forall|i: int| 0 <= i < m1@.len() implies #[trigger] m@[i] == mat_add(m1@, m2@)[i] by {
                lemma_pairwise_named(m1@[i], m2@[i]);
            }
            assert(m@ =~= mat_add(m1@, m2@));
        }
        Ok(m)
    }

    /// Entrywise difference of two matrices of the same shape; fails when the
    /// shapes differ.
    pub fn sub(m1: &Matrix, m2: &Matrix) -> (r: Result<Matrix, ShapeError>)
        requires
            m1.wf(),
            m2.wf(),
            same_shape(m1@, m2@) ==> mat_sub_fits(m1@, m2@),
        ensures
            r is Ok <==> same_shape(m1@, m2@),
            r is Err ==> r == Err::<Matrix, ShapeError>(mismatch(m1@, m2@)),
            r matches Ok(m) ==> m.wf() && m@ == mat_sub(m1@, m2@),
    {
        proof {
            m1.lemma_wf_shaped();
            m2.lemma_wf_shaped();
        }
        if m1.rows != m2.rows || m1.cols != m2.cols {
            return Err(ShapeError::ShapeMismatch {
                left_rows: m1.rows,
                left_cols: m1.cols,
                right_rows: m2.rows,
                right_cols: m2.cols,
            });
        }
        proof {
            assert forall|i: int| 0 <= i < m1@.len() implies pairwise_fits(
                Pairwise::Sub,
                #[trigger] m1@[i],
                m2@[i],
            ) by {
                lemma_pairwise_named(m1@[i], m2@[i]);
            }
        }
        let m = Matrix::zip_rows(m1, m2, Pairwise::Sub);
        proof {
            assert forall|i: int| 0 <= i < m1@.len() implies #[trigger] m@[i] == mat_sub(m1@, m2@)[i] by {
                lemma_pairwise_named(m1@[i], m2@[i]);
            }
            assert(m@ =~= mat_sub(m1@, m2@));
        }
        Ok(m)
    }

    /// Entrywise (Hadamard) product of two matrices of the same shape; fails
    /// when the shapes differ.
    pub fn prod(m1: &Matrix, m2: &Matrix) -> (r: Result<Matrix, ShapeError>)
        requires
            m1.wf(),
            m2.wf(),
            same_shape(m1@, m2@) ==> mat_prod_fits(m1@, m2@),
        ensures
            r is Ok <==> same_shape(m1@, m2@),
            r is Err ==> r == Err::<Matrix, ShapeError>(mismatch(m1@, m2@)),
            r matches Ok(m) ==> m.wf() && m@ == mat_prod(m1@, m2@),
    {
        proof {
            m1.lemma_wf_shaped();
            m2.lemma_wf_shaped();
        }
        if m1.rows != m2.rows || m1.cols != m2.cols {
            return Err(ShapeError::ShapeMismatch {
                left_rows: m1.rows,
                left_cols: m1.cols,
                right_rows: m2.rows,
                right_cols: m2.cols,
            });
        }
        proof {
            assert forall|i: int| 0 <= i < m1@.len() implies pairwise_fits(
                Pairwise::Mul,
                #[trigger] m1@[i],
                m2@[i],
            ) by {
                lemma_pairwise_named(m1@[i], m2@[i]);
            }
        }
        let m = Matrix::zip_rows(m1, m2, Pairwise::Mul);
        proof {
            assert forall|i: int| 0 <= i < m1@.len() implies #[trigger] m@[i] == mat_prod(m1@, m2@)[i] by {
                lemma_pairwise_named(m1@[i], m2@[i]);
            }
            assert(m@ =~= mat_prod(m1@, m2@));
        }
        Ok(m)
    }

    /// Frobenius inner product of two matrices of the same shape, accumulated
    /// from zero in row-major order; fails when the shapes differ.
    pub fn dot(m1: &Matrix, m2: &Matrix) -> (r: Result<i64, ShapeError>)
        requires
            m1.wf(),
            m2.wf(),
            same_shape(m1@, m2@) ==> mat_dot_fits(m1@, m2@),
        ensures
            r is Ok <==> same_shape(m1@, m2@),
            r is Err ==> r == Err::<i64, ShapeError>(mismatch(m1@, m2@)),
            r matches Ok(x) ==> x == mat_dot(m1@, m2@),
    {
        proof {
            m1.lemma_wf_shaped();
            m2.lemma_wf_shaped();
        }
        if m1.rows != m2.rows || m1.cols != m2.cols {
            return Err(ShapeError::ShapeMismatch {
                left_rows: m1.rows,
                left_cols: m1.cols,
                right_rows: m2.rows,
                right_cols: m2.cols,
            });
        }
        let mut acc: i64 = zero();
        let mut row: usize = 0;
        while row < m1.rows
            invariant
                m1.wf(),
                m2.wf(),
                m1.rows == m2.rows,
                m1.cols == m2.cols,
                mat_dot_fits(m1@, m2@),
                row <= m1.rows,
                acc == frob_prefix(m1@, m2@, row as nat),
            decreases m1.rows - row,
        {
            assert(m1.data@[row as int]@.len() == m1.cols);
            assert(m2.data@[row as int]@.len() == m2.cols);
            assert(acc_fits(frob_prefix(m1@, m2@, row as nat), m1@[row as int], m2@[row as int]));
            acc = dot_onto(acc, m1.data[row].as_slice(), m2.data[row].as_slice());
            row = row + 1;
        }
        Ok(acc)
    }

    /// The matrix whose rows are `src`; fails with `ZeroDimension` when there
    /// is no row or the first row is empty, and with `ShapeMismatch` naming
    /// the lengths of row 0 and of the first row that differs from it (each
    /// as a single row) when the rows are ragged.
    pub fn from(src: Vec<Vec<i64>>) -> (r: Result<Matrix, ShapeError>)
        ensures
            r is Ok <==> shaped(rows_view(src@)),
            r matches Ok(m) ==> m.wf() && m@ == rows_view(src@),
            src@.len() == 0 ==> r == Err::<Matrix, ShapeError>(
                ShapeError::ZeroDimension { rows: 0, cols: 0 },
            ),
            src@.len() > 0 && src@[0]@.len() == 0 ==> r == Err::<Matrix, ShapeError>(
                ShapeError::ZeroDimension { rows: src@.len() as usize, cols: 0 },
            ),
            src@.len() > 0 && src@[0]@.len() > 0 && !shaped(rows_view(src@)) ==> exists|k: int|
                first_ragged(src@, k) && r == Err::<Matrix, ShapeError>(
                    ShapeError::ShapeMismatch {
                        left_rows: 1,
                        left_cols: src@[0]@.len() as usize,
                        right_rows: 1,
                        right_cols: src@[k]@.len() as usize,
                    },
                ),
    {
        let rows = src.len();
        if rows == 0 {
            return Err(ShapeError::ZeroDimension { rows: 0, cols: 0 });
        }
        let cols = src[0].len();
        if cols == 0 {
            return Err(ShapeError::ZeroDimension { rows, cols: 0 });
        }
        let mut i: usize = 1;
        while i < rows
            invariant
                rows == src@.len(),
                cols == src@[0]@.len(),
                cols > 0,
                1 <= i <= rows,
                forall|l: int| 0 <= l < i ==> (#[trigger] src@[l])@.len() == cols,
            decreases rows - i,
        {
            if src[i].len() != cols {
                assert(first_ragged(src@, i as int));
                assert(rows_view(src@)[i as int].len() != ncols(rows_view(src@)));
                return Err(
                    ShapeError::ShapeMismatch {
                        left_rows: 1,
                        left_cols: cols,
                        right_rows: 1,
                        right_cols: src[i].len(),
                    },
                );
            }
            i = i + 1;
        }
        let m = Matrix { rows, cols, data: src };
        proof {
            m.lemma_wf_shaped();
        }
        Ok(m)
    }

    /// The number of rows and of columns.
    pub fn dim(&self) -> (r: (usize, usize))
        requires
            self.wf(),
        ensures
            r.0 == nrows(self@),
            r.1 == ncols(self@),
    {
        proof {
            self.lemma_wf_shaped();
        }
        (self.rows, self.cols)
    }

    /// The entry at `(row, col)`.
    pub fn get(&self, row: usize, col: usize) -> (r: i64)
        requires
            self.wf(),
            row < nrows(self@),
            col < ncols(self@),
        ensures
            r == self@[row as int][col as int],
    {
        proof {
            self.lemma_wf_shaped();
        }
        assert(self.data@[row as int]@.len() == self.cols);
        self.data[row][col]
    }

    /// Row `row`, for further indexing by column.
    pub fn row(&self, row: usize) -> (r: &Vec<i64>)
        requires
            self.wf(),
            row < nrows(self@),
        ensures
            ints(r@) == self@[row as int],
            r@.len() == ncols(self@),
    {
        proof {
            self.lemma_wf_shaped();
        }
        &self.data[row]
    }

    /// Replaces the entry at `(row, col)` by `v`.
    pub fn set(&mut self, row: usize, col: usize, v: i64)
        requires
            old(self).wf(),
            row < nrows(old(self)@),
            col < ncols(old(self)@),
        ensures
            final(self).wf(),
            final(self)@ == old(self)@.update(
                row as int,
                old(self)@[row as int].update(col as int, v as int),
            ),
    {
        proof {
            self.lemma_wf_shaped();
        }
        assert(self.data@[row as int]@.len() == self.cols);
        let mut line = copy_row(self.data[row].as_slice());
        line.set(col, v);
        self.data.set(row, line);
        assert(self@ =~~= old(self)@.update(row as int, old(self)@[row as int].update(col as int, v as int)));
    }

    /// The rows, copied out.
    pub fn to_rows(&self) -> (r: Vec<Vec<i64>>)
        requires
            self.wf(),
        ensures
            rows_view(r@) == self@,
            r@.len() == nrows(self@),
    {
        let mut out: Vec<Vec<i64>> = Vec::with_capacity(self.rows);
        let mut i: usize = 0;
        while i < self.rows
            invariant
                self.wf(),
                i <= self.rows,
                out@.len() == i,
                forall|k: int| 0 <= k < i ==> (#[trigger] out@[k])@ == self.data@[k]@,
            decreases self.rows - i,
        {
            out.push(copy_row(self.data[i].as_slice()));
            i = i + 1;
        }
        assert(rows_view(out@) =~= self@);
        out
    }
}

} // verus!
