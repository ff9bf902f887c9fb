//! An owned, rectangular, row-major matrix over a scalar field.
//!
//! Kernels in this crate address sub-windows of a matrix by explicit row and
//! column offsets; disjointness of the regions an operation reads and writes
//! is part of each contract, which is this crate's form of the aliasing
//! discipline the kernels rely on.

use vstd::arithmetic::mul::lemma_mul_inequality;
use vstd::prelude::*;

use crate::field::Field;

verus! {

/// A dense matrix with `nrows * ncols` entries stored row-major.
pub struct Mat<T> {
    /// Entry `(i, j)` is stored at position `i * ncols + j`.
    pub data: Vec<T>,
    /// Number of rows.
    pub nrows: usize,
    /// Number of columns.
    pub ncols: usize,
}

/// A row-major position lies strictly inside the backing storage.
pub proof fn lemma_row_major_index(i: int, j: int, nrows: int, ncols: int)
    requires
        0 <= i < nrows,
        0 <= j < ncols,
    ensures
        0 <= i * ncols + j < nrows * ncols,
        i * ncols + j < nrows * ncols,
    decreases 0int,
{
    lemma_mul_inequality(i + 1, nrows, ncols);
    assert((i + 1) * ncols == i * ncols + ncols) by (nonlinear_arith);
    assert(i * ncols >= 0) by (nonlinear_arith)
        requires
            i >= 0 && ncols >= 0,
    ;
}

impl<T> Mat<T> {
    /// The backing storage holds exactly one entry per position.
    pub open spec fn wf(self) -> bool {
        &&& self.data@.len() == self.nrows * self.ncols
        &&& self.nrows * self.ncols <= usize::MAX
    }

    /// Row count, as a mathematical integer.
    pub open spec fn sp_nrows(self) -> int {
        self.nrows as int
    }

    /// Column count, as a mathematical integer.
    pub open spec fn sp_ncols(self) -> int {
        self.ncols as int
    }

    /// The entry in row `i`, column `j`.
    pub open spec fn sp_at(self, i: int, j: int) -> T {
        self.data@[i * self.sp_ncols() + j]
    }

    /// Both dimensions and every entry agree.
    pub open spec fn sp_same(self, other: Mat<T>) -> bool {
        &&& self.sp_nrows() == other.sp_nrows()
        &&& self.sp_ncols() == other.sp_ncols()
        &&& forall|i: int, j: int|
            0 <= i < self.sp_nrows() && 0 <= j < self.sp_ncols() ==> #[trigger] self.sp_at(i, j)
                == other.sp_at(i, j)
    }
}

impl<T: Field> Mat<T> {
    /// A matrix with every entry equal to the additive identity.
    pub fn zeros(nrows: usize, ncols: usize) -> (r: Mat<T>)
        requires
            nrows * ncols <= usize::MAX,
        ensures
            r.wf(),
            r.sp_nrows() == nrows,
            r.sp_ncols() == ncols,
            forall|i: int, j: int|
                0 <= i < nrows && 0 <= j < ncols ==> #[trigger] r.sp_at(i, j) == T::sp_zero(),
    {
        let total = nrows * ncols;
        let mut data: Vec<T> = Vec::new();
        let mut c: usize = 0;
        while c < total
            invariant
                c <= total,
                data@.len() == c,
                forall|p: int| 0 <= p < c ==> #[trigger] data@[p] == T::sp_zero(),
            decreases total - c,
        {
            data.push(T::zero());
            c = c + 1;
        }
        let r = Mat { data, nrows, ncols };
        proof {
            assert forall|i: int, j: int| 0 <= i < nrows && 0 <= j < ncols implies #[trigger] r.sp_at(
                i,
                j,
            ) == T::sp_zero() by {
                lemma_row_major_index(i, j, nrows as int, ncols as int);
            }
        }
        r
    }

    /// A single-column matrix holding the entries of a vector.
    pub fn from_col(v: &Vec<T>) -> (r: Mat<T>)
        ensures
            r.wf(),
            r.sp_nrows() == v@.len(),
            r.sp_ncols() == 1,
            forall|i: int| 0 <= i < v@.len() ==> #[trigger] r.sp_at(i, 0) == v@[i],
    {
        let mut data: Vec<T> = Vec::new();
        let n = v.len();
        let mut c: usize = 0;
        while c < n
            invariant
                c <= n,
                n == v@.len(),
                data@.len() == c,
                forall|p: int| 0 <= p < c ==> #[trigger] data@[p] == v@[p],
            decreases n - c,
        {
            data.push(v[c]);
            c = c + 1;
        }
        Mat { data, nrows: n, ncols: 1 }
    }

    /// Read the entry in row `i`, column `j`.
    pub fn get(&self, i: usize, j: usize) -> (r: T)
        requires
            self.wf(),
            i < self.sp_nrows(),
            j < self.sp_ncols(),
        ensures
            r == self.sp_at(i as int, j as int),
    {
        proof {
            lemma_row_major_index(i as int, j as int, self.sp_nrows(), self.sp_ncols());
        }
        self.data[i * self.ncols + j]
    }

    /// Overwrite the entry in row `i`, column `j`; every other entry and both
    /// dimensions are unchanged.
    pub fn set(&mut self, i: usize, j: usize, v: T)
        requires
            old(self).wf(),
            i < old(self).sp_nrows(),
            j < old(self).sp_ncols(),
        ensures
            final(self).wf(),
            final(self).sp_nrows() == old(self).sp_nrows(),
            final(self).sp_ncols() == old(self).sp_ncols(),
            final(self).sp_at(i as int, j as int) == v,
            forall|r: int, c: int|
                0 <= r < old(self).sp_nrows() && 0 <= c < old(self).sp_ncols() && !(r == i && c
                    == j) ==> #[trigger] final(self).sp_at(r, c) == old(self).sp_at(r, c),
    {
        proof {
            lemma_row_major_index(i as int, j as int, self.sp_nrows(), self.sp_ncols());
        }
        let pos = i * self.ncols + j;
        self.data.set(pos, v);
        proof {
            assert forall|r: int, c: int|
                0 <= r < old(self).sp_nrows() && 0 <= c < old(self).sp_ncols() && !(r == i as int
                    && c == j as int) implies #[trigger] self.sp_at(r, c) == old(self).sp_at(
                r,
                c,
            ) by {
                lemma_row_major_index(r, c, self.sp_nrows(), self.sp_ncols());
                lemma_distinct_positions(r, c, i as int, j as int, self.sp_ncols());
            }
        }
    }

    /// A copy of the `nr * nc` window whose top-left corner is `(r0, c0)`.
    pub fn submatrix(&self, r0: usize, c0: usize, nr: usize, nc: usize) -> (r: Mat<T>)
        requires
            self.wf(),
            r0 + nr <= self.sp_nrows(),
            c0 + nc <= self.sp_ncols(),
        ensures
            r.wf(),
            r.sp_nrows() == nr,
            r.sp_ncols() == nc,
            forall|i: int, j: int|
                0 <= i < nr && 0 <= j < nc ==> #[trigger] r.sp_at(i, j) == self.sp_at(
                    r0 + i,
                    c0 + j,
                ),
    {
        let mut data: Vec<T> = Vec::new();
        let mut i: usize = 0;
        while i < nr
            invariant
                self.wf(),
                r0 + nr <= self.sp_nrows(),
                c0 + nc <= self.sp_ncols(),
                i <= nr,
                data@.len() == i * nc,
                forall|p: int, q: int|
                    0 <= p < i && 0 <= q < nc ==> #[trigger] data@[p * nc + q] == self.sp_at(
                        r0 + p,
                        c0 + q,
                    ),
            decreases nr - i,
        {
            let mut j: usize = 0;
            while j < nc
                invariant
                    self.wf(),
                    r0 + nr <= self.sp_nrows(),
                    c0 + nc <= self.sp_ncols(),
                    i < nr,
                    j <= nc,
                    data@.len() == i * nc + j,
                    forall|p: int, q: int|
                        0 <= p < i && 0 <= q < nc ==> #[trigger] data@[p * nc + q] == self.sp_at(
                            r0 + p,
                            c0 + q,
                        ),
                    forall|q: int|
                        0 <= q < j ==> #[trigger] data@[i * nc + q] == self.sp_at(
                            r0 + i,
                            c0 + q,
                        ),
                decreases nc - j,
            {
                let v = self.get(r0 + i, c0 + j);
                data.push(v);
                j = j + 1;
                proof {
                    assert forall|p: int, q: int| 0 <= p < i && 0 <= q < nc implies #[trigger] data@[p
                        * nc + q] == self.sp_at(r0 + p, c0 + q) by {
                        lemma_row_major_index(p, q, i as int, nc as int);
                    }
                }
            }
            i = i + 1;
            proof {
                assert forall|p: int, q: int| 0 <= p < i && 0 <= q < nc implies #[trigger] data@[p
                    * nc + q] == self.sp_at(r0 + p, c0 + q) by {
                    if p < i - 1 {
                        lemma_row_major_index(p, q, i as int, nc as int);
                    }
                }
                assert(data@.len() == (i - 1) * nc + nc);
                assert((i - 1) * nc + nc == i * nc) by (nonlinear_arith);
            }
        }
        assert(data.len() == data@.len());
        let r = Mat { data, nrows: nr, ncols: nc };
        proof {
            assert forall|i2: int, j2: int| 0 <= i2 < nr && 0 <= j2 < nc implies #[trigger] r.sp_at(
                i2,
                j2,
            ) == self.sp_at(r0 + i2, c0 + j2) by {
                lemma_row_major_index(i2, j2, nr as int, nc as int);
            }
        }
        r
    }

    /// Overwrite the window whose top-left corner is `(r0, c0)` with `src`;
    /// entries outside the window and both dimensions are unchanged.
    pub fn paste(&mut self, r0: usize, c0: usize, src: &Mat<T>)
        requires
            old(self).wf(),
            src.wf(),
            r0 + src.sp_nrows() <= old(self).sp_nrows(),
            c0 + src.sp_ncols() <= old(self).sp_ncols(),
        ensures
            final(self).wf(),
            final(self).sp_nrows() == old(self).sp_nrows(),
            final(self).sp_ncols() == old(self).sp_ncols(),
            forall|i: int, j: int|
                0 <= i < src.sp_nrows() && 0 <= j < src.sp_ncols() ==> #[trigger] final(self).sp_at(
                    r0 + i,
                    c0 + j,
                ) == src.sp_at(i, j),
            forall|r: int, c: int|
                (0 <= r < old(self).sp_nrows() && 0 <= c < old(self).sp_ncols() && !(r0 <= r < r0
                    + src.sp_nrows() && c0 <= c < c0 + src.sp_ncols()))
                    ==> #[trigger] final(self).sp_at(r, c) == old(self).sp_at(r, c),
    {
        let nr = src.nrows;
        let nc = src.ncols;
        let mut i: usize = 0;
        while i < nr
            invariant
                self.wf(),
                src.wf(),
                nr == src.sp_nrows(),
                nc == src.sp_ncols(),
                r0 + nr <= self.sp_nrows(),
                c0 + nc <= self.sp_ncols(),
                i <= nr,
                self.sp_nrows() == old(self).sp_nrows(),
                self.sp_ncols() == old(self).sp_ncols(),
                forall|p: int, q: int|
                    0 <= p < i && 0 <= q < nc ==> #[trigger] self.sp_at(r0 + p, c0 + q)
                        == src.sp_at(p, q),
                forall|r: int, c: int|
                    0 <= r < old(self).sp_nrows() && 0 <= c < old(self).sp_ncols() && !(r0 <= r
                        < r0 + i && c0 <= c < c0 + nc) ==> #[trigger] self.sp_at(r, c) == old(
                        self,
                    ).sp_at(r, c),
            decreases nr - i,
        {
            let mut j: usize = 0;
            while j < nc
                invariant
                    self.wf(),
                    src.wf(),
                    nr == src.sp_nrows(),
                    nc == src.sp_ncols(),
                    r0 + nr <= self.sp_nrows(),
                    c0 + nc <= self.sp_ncols(),
                    i < nr,
                    j <= nc,
                    self.sp_nrows() == old(self).sp_nrows(),
                    self.sp_ncols() == old(self).sp_ncols(),
                    forall|p: int, q: int|
                        0 <= p < i && 0 <= q < nc ==> #[trigger] self.sp_at(r0 + p, c0 + q)
                            == src.sp_at(p, q),
                    forall|q: int|
                        0 <= q < j ==> #[trigger] self.sp_at(r0 + i, c0 + q) == src.sp_at(
                            i as int,
                            q,
                        ),
                    forall|r: int, c: int|
                        0 <= r < old(self).sp_nrows() && 0 <= c < old(self).sp_ncols() && !(r0 <= r
                            < r0 + i + 1 && c0 <= c < c0 + nc) ==> #[trigger] self.sp_at(r, c)
                            == old(self).sp_at(r, c),
                decreases nc - j,
            {
                let v = src.get(i, j);
                self.set(r0 + i, c0 + j, v);
                j = j + 1;
            }
            i = i + 1;
        }
    }
}

/// Distinct in-bounds coordinates occupy distinct row-major positions.
proof fn lemma_distinct_positions(r: int, c: int, i: int, j: int, ncols: int)
    requires
        0 <= r,
        0 <= c < ncols,
        0 <= i,
        0 <= j < ncols,
        !(r == i && c == j),
    ensures
        r * ncols + c != i * ncols + j,
{
    if r == i {
    } else {
        assert(r * ncols + c != i * ncols + j) by (nonlinear_arith)
            requires
                0 <= c < ncols && 0 <= j < ncols && r != i,
        ;
    }
}

} // verus!
