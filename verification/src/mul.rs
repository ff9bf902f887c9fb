//! The structured (triangular-aware) matrix multiply.
//!
//! This is the one performance-critical primitive of the crate: it computes
//! `C := beta * C + alpha * op(A) * op(B)` where each operand carries a block
//! structure tag declaring which of its entries are logically present. The
//! inner accumulation is restricted to the declared nonzero region, entries
//! outside a triangular pattern are never read, and a unit-triangular
//! diagonal is taken to be the multiplicative identity without being read.
//! The contract pins every output entry as a function of the inputs alone, so
//! the result is independent of the `Parallelism` setting a caller selects.

use vstd::prelude::*;

use crate::field::Field;
use crate::mat::Mat;

verus! {

/// Which entries of an operand are logically present. For the `Unit` variants
/// the diagonal is never read and stands for the multiplicative identity.
#[derive(Clone, Copy, Debug, PartialEq, Eq, Structural)]
pub enum BlockStructure {
    Rectangular,
    TriangularUpper,
    TriangularLower,
    UnitTriangularUpper,
    UnitTriangularLower,
}

/// The `op` applied to an operand before multiplying: the identity, the
/// transpose, or the conjugate transpose.
#[derive(Clone, Copy, Debug, PartialEq, Eq, Structural)]
pub enum MatrixOp {
    Identity,
    Transpose,
    ConjTranspose,
}

/// Whether a multiply may fan its output tiles out to worker threads:
/// sequential, or parallel with the given worker count, where zero workers
/// means the ambient default. A pure configuration value; the contract of
/// every operation taking one is independent of it.
#[derive(Clone, Copy, Debug, PartialEq, Eq, Structural)]
pub enum Parallelism {
    Sequential,
    Workers(usize),
}

/// Row count of an operand after its `op` is applied.
pub open spec fn sp_op_nrows<T>(m: Mat<T>, op: MatrixOp) -> int {
    match op {
        MatrixOp::Identity => m.sp_nrows(),
        MatrixOp::Transpose => m.sp_ncols(),
        MatrixOp::ConjTranspose => m.sp_ncols(),
    }
}

/// Column count of an operand after its `op` is applied.
pub open spec fn sp_op_ncols<T>(m: Mat<T>, op: MatrixOp) -> int {
    match op {
        MatrixOp::Identity => m.sp_ncols(),
        MatrixOp::Transpose => m.sp_nrows(),
        MatrixOp::ConjTranspose => m.sp_nrows(),
    }
}

/// Entry `(i, j)` of an operand after its `op` is applied.
pub open spec fn sp_operand_entry<T: Field>(m: Mat<T>, op: MatrixOp, i: int, j: int) -> T {
    match op {
        MatrixOp::Identity => m.sp_at(i, j),
        MatrixOp::Transpose => m.sp_at(j, i),
        MatrixOp::ConjTranspose => m.sp_at(j, i).sp_conj(),
    }
}

/// Whether position `(i, j)` lies in the declared pattern.
pub open spec fn sp_in_pattern(s: BlockStructure, i: int, j: int) -> bool {
    match s {
        BlockStructure::Rectangular => true,
        BlockStructure::TriangularUpper => i <= j,
        BlockStructure::TriangularLower => i >= j,
        BlockStructure::UnitTriangularUpper => i <= j,
        BlockStructure::UnitTriangularLower => i >= j,
    }
}

/// Whether the structure has an implicit unit diagonal.
pub open spec fn sp_is_unit(s: BlockStructure) -> bool {
    match s {
        BlockStructure::UnitTriangularUpper => true,
        BlockStructure::UnitTriangularLower => true,
        _ => false,
    }
}

/// Whether position `(i, j)` is on an implicit unit diagonal.
pub open spec fn sp_unit_diag(s: BlockStructure, i: int, j: int) -> bool {
    sp_is_unit(s) && i == j
}

/// The logical entry `(i, j)` of a structured operand: the multiplicative
/// identity on an implicit unit diagonal, the stored entry inside the
/// pattern, and the additive identity outside it.
pub open spec fn sp_logical_entry<T: Field>(
    m: Mat<T>,
    op: MatrixOp,
    s: BlockStructure,
    i: int,
    j: int,
) -> T {
    if sp_unit_diag(s, i, j) {
        T::sp_one()
    } else if sp_in_pattern(s, i, j) {
        sp_operand_entry(m, op, i, j)
    } else {
        T::sp_zero()
    }
}

/// One summand of entry `(i, j)` of the structured product: the logical
/// entries of the two operands at inner index `l`, multiplied.
pub open spec fn sp_prod_term<T: Field>(
    lhs: Mat<T>,
    lhs_op: MatrixOp,
    lhs_structure: BlockStructure,
    rhs: Mat<T>,
    rhs_op: MatrixOp,
    rhs_structure: BlockStructure,
    i: int,
    j: int,
    l: int,
) -> T {
    sp_logical_entry(lhs, lhs_op, lhs_structure, i, l).sp_mul(
        sp_logical_entry(rhs, rhs_op, rhs_structure, l, j),
    )
}

/// The summands of entry `(i, j)` over the inner indices `[lo, hi)`, folded
/// from the left, with the empty sum equal to the additive identity.
pub open spec fn sp_prod_range<T: Field>(
    lhs: Mat<T>,
    lhs_op: MatrixOp,
    lhs_structure: BlockStructure,
    rhs: Mat<T>,
    rhs_op: MatrixOp,
    rhs_structure: BlockStructure,
    i: int,
    j: int,
    lo: int,
    hi: int,
) -> T
    decreases hi - lo,
{
    if lo >= hi {
        T::sp_zero()
    } else {
        sp_prod_range(lhs, lhs_op, lhs_structure, rhs, rhs_op, rhs_structure, i, j, lo, hi - 1)
            .sp_add(sp_prod_term(lhs, lhs_op, lhs_structure, rhs, rhs_op, rhs_structure, i, j, hi - 1))
    }
}

/// Entry `(i, j)` of the structured product `op(lhs) * op(rhs)` with inner
/// dimension `k`.
pub open spec fn sp_prod_entry<T: Field>(
    lhs: Mat<T>,
    lhs_op: MatrixOp,
    lhs_structure: BlockStructure,
    rhs: Mat<T>,
    rhs_op: MatrixOp,
    rhs_structure: BlockStructure,
    k: int,
    i: int,
    j: int,
) -> T {
    sp_prod_range(lhs, lhs_op, lhs_structure, rhs, rhs_op, rhs_structure, i, j, 0, k)
}

/// Entry `(i, j)` of the multiply's output: `alpha` times the structured
/// product, accumulated onto `beta` times the previous contents, where a
/// `beta` of `None` overwrites instead of accumulating.
pub open spec fn sp_matmul_entry<T: Field>(
    dst0: Mat<T>,
    lhs: Mat<T>,
    lhs_op: MatrixOp,
    lhs_structure: BlockStructure,
    rhs: Mat<T>,
    rhs_op: MatrixOp,
    rhs_structure: BlockStructure,
    alpha: T,
    beta: Option<T>,
    i: int,
    j: int,
) -> T {
    let prod = sp_prod_entry(
        lhs,
        lhs_op,
        lhs_structure,
        rhs,
        rhs_op,
        rhs_structure,
        sp_op_ncols(lhs, lhs_op),
        i,
        j,
    );
    match beta {
        Option::None => alpha.sp_mul(prod),
        Option::Some(b) => b.sp_mul(dst0.sp_at(i, j)).sp_add(alpha.sp_mul(prod)),
    }
}

/// Summands equal to the additive identity at the top of the range can be
/// dropped from a partial product.
pub proof fn lemma_prod_range_zero_tail<T: Field>(
    lhs: Mat<T>,
    lhs_op: MatrixOp,
    lhs_structure: BlockStructure,
    rhs: Mat<T>,
    rhs_op: MatrixOp,
    rhs_structure: BlockStructure,
    i: int,
    j: int,
    lo: int,
    mid: int,
    hi: int,
)
    requires
        lo <= mid <= hi,
        forall|l: int|
            mid <= l < hi ==> #[trigger] sp_prod_term(
                lhs,
                lhs_op,
                lhs_structure,
                rhs,
                rhs_op,
                rhs_structure,
                i,
                j,
                l,
            ) == T::sp_zero(),
    ensures
        sp_prod_range(lhs, lhs_op, lhs_structure, rhs, rhs_op, rhs_structure, i, j, lo, hi)
            == sp_prod_range(lhs, lhs_op, lhs_structure, rhs, rhs_op, rhs_structure, i, j, lo, mid),
    decreases hi - mid,
{
    T::laws_add();
    if mid < hi {
        lemma_prod_range_zero_tail(
            lhs,
            lhs_op,
            lhs_structure,
            rhs,
            rhs_op,
            rhs_structure,
            i,
            j,
            lo,
            mid,
            hi - 1,
        );
    }
}

/// A partial product whose summands are all the additive identity is the
/// additive identity.
pub proof fn lemma_prod_range_all_zero<T: Field>(
    lhs: Mat<T>,
    lhs_op: MatrixOp,
    lhs_structure: BlockStructure,
    rhs: Mat<T>,
    rhs_op: MatrixOp,
    rhs_structure: BlockStructure,
    i: int,
    j: int,
    lo: int,
    hi: int,
)
    requires
        forall|l: int|
            lo <= l < hi ==> #[trigger] sp_prod_term(
                lhs,
                lhs_op,
                lhs_structure,
                rhs,
                rhs_op,
                rhs_structure,
                i,
                j,
                l,
            ) == T::sp_zero(),
    ensures
        sp_prod_range(lhs, lhs_op, lhs_structure, rhs, rhs_op, rhs_structure, i, j, lo, hi)
            == T::sp_zero(),
    decreases hi - lo,
{
    T::laws_add();
    if lo < hi {
        lemma_prod_range_all_zero(
            lhs,
            lhs_op,
            lhs_structure,
            rhs,
            rhs_op,
            rhs_structure,
            i,
            j,
            lo,
            hi - 1,
        );
    }
}

/// Summands equal to the additive identity at the bottom of the range can be
/// dropped from a partial product.
pub proof fn lemma_prod_range_zero_head<T: Field>(
    lhs: Mat<T>,
    lhs_op: MatrixOp,
    lhs_structure: BlockStructure,
    rhs: Mat<T>,
    rhs_op: MatrixOp,
    rhs_structure: BlockStructure,
    i: int,
    j: int,
    lo: int,
    mid: int,
    hi: int,
)
    requires
        lo <= mid,
        forall|l: int|
            lo <= l < mid ==> #[trigger] sp_prod_term(
                lhs,
                lhs_op,
                lhs_structure,
                rhs,
                rhs_op,
                rhs_structure,
                i,
                j,
                l,
            ) == T::sp_zero(),
    ensures
        sp_prod_range(lhs, lhs_op, lhs_structure, rhs, rhs_op, rhs_structure, i, j, lo, hi)
            == sp_prod_range(lhs, lhs_op, lhs_structure, rhs, rhs_op, rhs_structure, i, j, mid, hi),
    decreases hi - lo,
{
    T::laws_add();
    if hi <= mid {
        lemma_prod_range_all_zero(
            lhs,
            lhs_op,
            lhs_structure,
            rhs,
            rhs_op,
            rhs_structure,
            i,
            j,
            lo,
            hi,
        );
    } else {
        lemma_prod_range_zero_head(
            lhs,
            lhs_op,
            lhs_structure,
            rhs,
            rhs_op,
            rhs_structure,
            i,
            j,
            lo,
            mid,
            hi - 1,
        );
    }
}

/// Two partial products with pointwise-equal summands are equal. The two
/// sides may be over different operand matrices, ops, structures and output
/// positions; only the summands must agree on the range.
pub proof fn lemma_prod_range_congruence<T: Field>(
    lhs1: Mat<T>,
    lhs_op1: MatrixOp,
    lhs_structure1: BlockStructure,
    rhs1: Mat<T>,
    rhs_op1: MatrixOp,
    rhs_structure1: BlockStructure,
    i1: int,
    j1: int,
    lhs2: Mat<T>,
    lhs_op2: MatrixOp,
    lhs_structure2: BlockStructure,
    rhs2: Mat<T>,
    rhs_op2: MatrixOp,
    rhs_structure2: BlockStructure,
    i2: int,
    j2: int,
    lo: int,
    hi: int,
)
    requires
        forall|l: int|
            lo <= l < hi ==> #[trigger] sp_prod_term(
                lhs1,
                lhs_op1,
                lhs_structure1,
                rhs1,
                rhs_op1,
                rhs_structure1,
                i1,
                j1,
                l,
            ) == sp_prod_term(
                lhs2,
                lhs_op2,
                lhs_structure2,
                rhs2,
                rhs_op2,
                rhs_structure2,
                i2,
                j2,
                l,
            ),
    ensures
        sp_prod_range(lhs1, lhs_op1, lhs_structure1, rhs1, rhs_op1, rhs_structure1, i1, j1, lo, hi)
            == sp_prod_range(
            lhs2,
            lhs_op2,
            lhs_structure2,
            rhs2,
            rhs_op2,
            rhs_structure2,
            i2,
            j2,
            lo,
            hi,
        ),
    decreases hi - lo,
{
    if lo < hi {
        lemma_prod_range_congruence(
            lhs1,
            lhs_op1,
            lhs_structure1,
            rhs1,
            rhs_op1,
            rhs_structure1,
            i1,
            j1,
            lhs2,
            lhs_op2,
            lhs_structure2,
            rhs2,
            rhs_op2,
            rhs_structure2,
            i2,
            j2,
            lo,
            hi - 1,
        );
    }
}

/// Read one entry of an operand as seen through its `op`.
fn operand_get<T: Field>(m: &Mat<T>, op: MatrixOp, i: usize, j: usize) -> (r: T)
    requires
        m.wf(),
        i < sp_op_nrows(*m, op),
        j < sp_op_ncols(*m, op),
    ensures
        r == sp_operand_entry(*m, op, i as int, j as int),
{
    match op {
        MatrixOp::Identity => m.get(i, j),
        MatrixOp::Transpose => m.get(j, i),
        MatrixOp::ConjTranspose => m.get(j, i).conj(),
    }
}

/// Whether the structure has an implicit unit diagonal.
fn is_unit(s: BlockStructure) -> (r: bool)
    ensures
        r == sp_is_unit(s),
{
    match s {
        BlockStructure::UnitTriangularUpper => true,
        BlockStructure::UnitTriangularLower => true,
        _ => false,
    }
}

/// The interval of columns of row `i` that lie in the pattern, within an
/// operand whose inner dimension is `k`.
fn row_support(s: BlockStructure, i: usize, k: usize) -> (r: (usize, usize))
    ensures
        r.0 <= r.1 <= k,
        forall|l: int| 0 <= l < k ==> (sp_in_pattern(s, i as int, l) <==> r.0 <= l < r.1),
{
    match s {
        BlockStructure::Rectangular => (0, k),
        BlockStructure::TriangularUpper | BlockStructure::UnitTriangularUpper => {
            if i < k {
                (i, k)
            } else {
                (k, k)
            }
        },
        BlockStructure::TriangularLower | BlockStructure::UnitTriangularLower => {
            if i >= k {
                (0, k)
            } else {
                (0, i + 1)
            }
        },
    }
}

/// The interval of rows of column `j` that lie in the pattern, within an
/// operand whose inner dimension is `k`.
fn col_support(s: BlockStructure, j: usize, k: usize) -> (r: (usize, usize))
    ensures
        r.0 <= r.1 <= k,
        forall|l: int| 0 <= l < k ==> (sp_in_pattern(s, l, j as int) <==> r.0 <= l < r.1),
{
    match s {
        BlockStructure::Rectangular => (0, k),
        BlockStructure::TriangularUpper | BlockStructure::UnitTriangularUpper => {
            if j >= k {
                (0, k)
            } else {
                (0, j + 1)
            }
        },
        BlockStructure::TriangularLower | BlockStructure::UnitTriangularLower => {
            if j < k {
                (j, k)
            } else {
                (k, k)
            }
        },
    }
}




/// Two partial products whose summands agree up to a constant offset of the
/// inner index are equal.
pub proof fn lemma_prod_range_shift<T: Field>(
    lhs1: Mat<T>,
    lhs_op1: MatrixOp,
    lhs_structure1: BlockStructure,
    rhs1: Mat<T>,
    rhs_op1: MatrixOp,
    rhs_structure1: BlockStructure,
    i1: int,
    j1: int,
    lhs2: Mat<T>,
    lhs_op2: MatrixOp,
    lhs_structure2: BlockStructure,
    rhs2: Mat<T>,
    rhs_op2: MatrixOp,
    rhs_structure2: BlockStructure,
    i2: int,
    j2: int,
    lo: int,
    hi: int,
    d: int,
)
    requires
        forall|l: int|
            lo <= l < hi ==> #[trigger] sp_prod_term(
                lhs1,
                lhs_op1,
                lhs_structure1,
                rhs1,
                rhs_op1,
                rhs_structure1,
                i1,
                j1,
                l,
            ) == sp_prod_term(
                lhs2,
                lhs_op2,
                lhs_structure2,
                rhs2,
                rhs_op2,
                rhs_structure2,
                i2,
                j2,
                l + d,
            ),
    ensures
        sp_prod_range(lhs1, lhs_op1, lhs_structure1, rhs1, rhs_op1, rhs_structure1, i1, j1, lo, hi)
            == sp_prod_range(
            lhs2,
            lhs_op2,
            lhs_structure2,
            rhs2,
            rhs_op2,
            rhs_structure2,
            i2,
            j2,
            lo + d,
            hi + d,
        ),
    decreases hi - lo,
{
    if lo < hi {
        lemma_prod_range_shift(
            lhs1,
            lhs_op1,
            lhs_structure1,
            rhs1,
            rhs_op1,
            rhs_structure1,
            i1,
            j1,
            lhs2,
            lhs_op2,
            lhs_structure2,
            rhs2,
            rhs_op2,
            rhs_structure2,
            i2,
            j2,
            lo,
            hi - 1,
            d,
        );
    }
}

/// Inner indices outside the intersection of the two declared supports
/// contribute the additive identity to a product entry.
proof fn lemma_prod_term_outside_supports<T: Field>(
    lhs: Mat<T>,
    lhs_op: MatrixOp,
    lhs_structure: BlockStructure,
    rhs: Mat<T>,
    rhs_op: MatrixOp,
    rhs_structure: BlockStructure,
    i: int,
    j: int,
    k: int,
    la: int,
    lb: int,
    ra: int,
    rb: int,
    lo: int,
    hi: int,
)
    requires
        forall|l: int| 0 <= l < k ==> (sp_in_pattern(lhs_structure, i, l) <==> la <= l < lb),
        forall|l: int| 0 <= l < k ==> (sp_in_pattern(rhs_structure, l, j) <==> ra <= l < rb),
        lo == (if la > ra {
            la
        } else {
            ra
        }),
        hi == (if (if lb < rb {
            lb
        } else {
            rb
        }) < lo {
            lo
        } else {
            (if lb < rb {
                lb
            } else {
                rb
            })
        }),
    ensures
        forall|l: int|
            0 <= l < k && !(lo <= l < hi) ==> #[trigger] sp_prod_term(
                lhs,
                lhs_op,
                lhs_structure,
                rhs,
                rhs_op,
                rhs_structure,
                i,
                j,
                l,
            ) == T::sp_zero(),
{
    T::laws_mul();
    assert forall|l: int| 0 <= l < k && !(lo <= l < hi) implies #[trigger] sp_prod_term(
        lhs,
        lhs_op,
        lhs_structure,
        rhs,
        rhs_op,
        rhs_structure,
        i,
        j,
        l,
    ) == T::sp_zero() by {
        if !(la <= l < lb) {
            assert(!sp_in_pattern(lhs_structure, i, l));
            assert(sp_logical_entry(lhs, lhs_op, lhs_structure, i, l) == T::sp_zero());
        } else {
            assert(!(ra <= l < rb));
            assert(!sp_in_pattern(rhs_structure, l, j));
            assert(sp_logical_entry(rhs, rhs_op, rhs_structure, l, j) == T::sp_zero());
        }
    }
}

/// One entry of the structured product: accumulate the summands over the
/// intersection of the two declared supports, reading nothing outside the
/// patterns and reading no implicit unit diagonal.
fn prod_cell<T: Field>(
    lhs: &Mat<T>,
    lhs_structure: BlockStructure,
    lhs_op: MatrixOp,
    rhs: &Mat<T>,
    rhs_structure: BlockStructure,
    rhs_op: MatrixOp,
    k: usize,
    i: usize,
    j: usize,
) -> (r: T)
    requires
        lhs.wf(),
        rhs.wf(),
        k == sp_op_ncols(*lhs, lhs_op),
        k == sp_op_nrows(*rhs, rhs_op),
        i < sp_op_nrows(*lhs, lhs_op),
        j < sp_op_ncols(*rhs, rhs_op),
    ensures
        r == sp_prod_entry(
            *lhs,
            lhs_op,
            lhs_structure,
            *rhs,
            rhs_op,
            rhs_structure,
            k as int,
            i as int,
            j as int,
        ),
{
    let (la, lb) = row_support(lhs_structure, i, k);
    let (ra, rb) = col_support(rhs_structure, j, k);
    let lo = if la > ra {
        la
    } else {
        ra
    };
    let hi0 = if lb < rb {
        lb
    } else {
        rb
    };
    let hi = if hi0 < lo {
        lo
    } else {
        hi0
    };
    proof {
        lemma_prod_term_outside_supports(
            *lhs,
            lhs_op,
            lhs_structure,
            *rhs,
            rhs_op,
            rhs_structure,
            i as int,
            j as int,
            k as int,
            la as int,
            lb as int,
            ra as int,
            rb as int,
            lo as int,
            hi as int,
        );
    }
    let lhs_unit = is_unit(lhs_structure);
    let rhs_unit = is_unit(rhs_structure);
    let mut acc = T::zero();
    let mut l: usize = lo;
    while l < hi
        invariant
            lhs.wf(),
            rhs.wf(),
            k == sp_op_ncols(*lhs, lhs_op),
            k == sp_op_nrows(*rhs, rhs_op),
            i < sp_op_nrows(*lhs, lhs_op),
            j < sp_op_ncols(*rhs, rhs_op),
            lo <= l <= hi <= k,
            lhs_unit == sp_is_unit(lhs_structure),
            rhs_unit == sp_is_unit(rhs_structure),
            forall|l2: int| 0 <= l2 < k ==> (sp_in_pattern(lhs_structure, i as int, l2) <==> la <= l2 < lb),
            forall|l2: int| 0 <= l2 < k ==> (sp_in_pattern(rhs_structure, l2, j as int) <==> ra <= l2 < rb),
            la <= lo,
            ra <= lo,
            hi <= lb || hi == lo,
            hi <= rb || hi == lo,
            acc == sp_prod_range(
                *lhs,
                lhs_op,
                lhs_structure,
                *rhs,
                rhs_op,
                rhs_structure,
                i as int,
                j as int,
                lo as int,
                l as int,
            ),
        decreases hi - l,
    {
        proof {
            assert(sp_in_pattern(lhs_structure, i as int, l as int));
            assert(sp_in_pattern(rhs_structure, l as int, j as int));
        }
        let lv = if lhs_unit && l == i {
            T::one()
        } else {
            operand_get(lhs, lhs_op, i, l)
        };
        let rv = if rhs_unit && l == j {
            T::one()
        } else {
            operand_get(rhs, rhs_op, l, j)
        };
        proof {
            assert(lv == sp_logical_entry(*lhs, lhs_op, lhs_structure, i as int, l as int));
            assert(rv == sp_logical_entry(*rhs, rhs_op, rhs_structure, l as int, j as int));
        }
        acc = acc.add(lv.mul(rv));
        l = l + 1;
    }
    proof {
        lemma_prod_range_zero_head(
            *lhs,
            lhs_op,
            lhs_structure,
            *rhs,
            rhs_op,
            rhs_structure,
            i as int,
            j as int,
            0,
            lo as int,
            hi as int,
        );
        lemma_prod_range_zero_tail(
            *lhs,
            lhs_op,
            lhs_structure,
            *rhs,
            rhs_op,
            rhs_structure,
            i as int,
            j as int,
            0,
            hi as int,
            k as int,
        );
    }
    acc
}

/// The structured matrix multiply:
/// `dst := beta * dst + alpha * op(lhs) * op(rhs)`, with a `beta` of `None`
/// overwriting `dst`. Each operand's structure tag declares which of its
/// entries are logically present; the accumulation only reads entries inside
/// the declared pattern, and an implicit unit diagonal contributes the
/// multiplicative identity without being read. The `parallelism` setting
/// selects how the work may be fanned out to workers; the result it ensures
/// does not depend on it.
pub fn triangular_matmul<T: Field>(
    dst: &mut Mat<T>,
    lhs: &Mat<T>,
    lhs_structure: BlockStructure,
    lhs_op: MatrixOp,
    rhs: &Mat<T>,
    rhs_structure: BlockStructure,
    rhs_op: MatrixOp,
    alpha: T,
    beta: Option<T>,
    parallelism: Parallelism,
)
    requires
        old(dst).wf(),
        lhs.wf(),
        rhs.wf(),
        sp_op_nrows(*lhs, lhs_op) == old(dst).sp_nrows(),
        sp_op_ncols(*rhs, rhs_op) == old(dst).sp_ncols(),
        sp_op_ncols(*lhs, lhs_op) == sp_op_nrows(*rhs, rhs_op),
    ensures
        final(dst).wf(),
        final(dst).sp_nrows() == old(dst).sp_nrows(),
        final(dst).sp_ncols() == old(dst).sp_ncols(),
        forall|i: int, j: int|
            0 <= i < old(dst).sp_nrows() && 0 <= j < old(dst).sp_ncols()
                ==> #[trigger] final(dst).sp_at(i, j) == sp_matmul_entry(
                *old(dst),
                *lhs,
                lhs_op,
                lhs_structure,
                *rhs,
                rhs_op,
                rhs_structure,
                alpha,
                beta,
                i,
                j,
            ),
{
    let m = dst.nrows;
    let n = dst.ncols;
    let k = match lhs_op {
        MatrixOp::Identity => lhs.ncols,
        MatrixOp::Transpose => lhs.nrows,
        MatrixOp::ConjTranspose => lhs.nrows,
    };
    let mut i: usize = 0;
    while i < m
        invariant
            i <= m,
            lhs.wf(),
            rhs.wf(),
            m == old(dst).sp_nrows(),
            n == old(dst).sp_ncols(),
            k == sp_op_ncols(*lhs, lhs_op),
            k == sp_op_nrows(*rhs, rhs_op),
            sp_op_nrows(*lhs, lhs_op) == m,
            sp_op_ncols(*rhs, rhs_op) == n,
            dst.wf(),
            dst.sp_nrows() == m,
            dst.sp_ncols() == n,
            forall|r: int, c: int|
                0 <= r < i && 0 <= c < n ==> #[trigger] dst.sp_at(r, c) == sp_matmul_entry(
                    *old(dst),
                    *lhs,
                    lhs_op,
                    lhs_structure,
                    *rhs,
                    rhs_op,
                    rhs_structure,
                    alpha,
                    beta,
                    r,
                    c,
                ),
            forall|r: int, c: int|
                i <= r < m && 0 <= c < n ==> #[trigger] dst.sp_at(r, c) == old(dst).sp_at(r, c),
        decreases m - i,
    {
        let mut j: usize = 0;
        while j < n
            invariant
                j <= n,
                lhs.wf(),
                rhs.wf(),
                i < m,
                m == old(dst).sp_nrows(),
                n == old(dst).sp_ncols(),
                k == sp_op_ncols(*lhs, lhs_op),
                k == sp_op_nrows(*rhs, rhs_op),
                sp_op_nrows(*lhs, lhs_op) == m,
                sp_op_ncols(*rhs, rhs_op) == n,
                dst.wf(),
                dst.sp_nrows() == m,
                dst.sp_ncols() == n,
                forall|r: int, c: int|
                    0 <= r < i && 0 <= c < n ==> #[trigger] dst.sp_at(r, c) == sp_matmul_entry(
                        *old(dst),
                        *lhs,
                        lhs_op,
                        lhs_structure,
                        *rhs,
                        rhs_op,
                        rhs_structure,
                        alpha,
                        beta,
                        r,
                        c,
                    ),
                forall|c: int|
                    0 <= c < j ==> #[trigger] dst.sp_at(i as int, c) == sp_matmul_entry(
                        *old(dst),
                        *lhs,
                        lhs_op,
                        lhs_structure,
                        *rhs,
                        rhs_op,
                        rhs_structure,
                        alpha,
                        beta,
                        i as int,
                        c,
                    ),
                forall|c: int|
                    j <= c < n ==> #[trigger] dst.sp_at(i as int, c) == old(dst).sp_at(i as int, c),
                forall|r: int, c: int|
                    i < r < m && 0 <= c < n ==> #[trigger] dst.sp_at(r, c) == old(dst).sp_at(r, c),
            decreases n - j,
        {
            let acc = prod_cell(lhs, lhs_structure, lhs_op, rhs, rhs_structure, rhs_op, k, i, j);
            let out = match beta {
                Option::None => alpha.mul(acc),
                Option::Some(b) => b.mul(dst.get(i, j)).add(alpha.mul(acc)),
            };
            dst.set(i, j, out);
            j = j + 1;
        }
        i = i + 1;
    }
    let ghost par = parallelism;
}

/// The plain dense multiply: both operands rectangular. It is the structured
/// multiply with every entry declared present.
pub fn matmul<T: Field>(
    dst: &mut Mat<T>,
    lhs: &Mat<T>,
    lhs_op: MatrixOp,
    rhs: &Mat<T>,
    rhs_op: MatrixOp,
    alpha: T,
    beta: Option<T>,
    parallelism: Parallelism,
)
    requires
        old(dst).wf(),
        lhs.wf(),
        rhs.wf(),
        sp_op_nrows(*lhs, lhs_op) == old(dst).sp_nrows(),
        sp_op_ncols(*rhs, rhs_op) == old(dst).sp_ncols(),
        sp_op_ncols(*lhs, lhs_op) == sp_op_nrows(*rhs, rhs_op),
    ensures
        final(dst).wf(),
        final(dst).sp_nrows() == old(dst).sp_nrows(),
        final(dst).sp_ncols() == old(dst).sp_ncols(),
        forall|i: int, j: int|
            0 <= i < old(dst).sp_nrows() && 0 <= j < old(dst).sp_ncols()
                ==> #[trigger] final(dst).sp_at(i, j) == sp_matmul_entry(
                *old(dst),
                *lhs,
                lhs_op,
                BlockStructure::Rectangular,
                *rhs,
                rhs_op,
                BlockStructure::Rectangular,
                alpha,
                beta,
                i,
                j,
            ),
{
    triangular_matmul(
        dst,
        lhs,
        BlockStructure::Rectangular,
        lhs_op,
        rhs,
        BlockStructure::Rectangular,
        rhs_op,
        alpha,
        beta,
        parallelism,
    );
}

/// Structured-multiply tag consistency: the multiply's result depends only on
/// the operand entries inside the declared pattern (and never on an implicit
/// unit diagonal), so two left operands that agree there give identical
/// results entry for entry. The right operand is covered by the symmetric
/// instantiation of the same congruence.
pub proof fn lemma_pattern_entries_unread<T: Field>(
    dst0: Mat<T>,
    lhs1: Mat<T>,
    lhs2: Mat<T>,
    lhs_op: MatrixOp,
    lhs_structure: BlockStructure,
    rhs: Mat<T>,
    rhs_op: MatrixOp,
    rhs_structure: BlockStructure,
    alpha: T,
    beta: Option<T>,
)
    requires
        sp_op_ncols(lhs1, lhs_op) == sp_op_ncols(lhs2, lhs_op),
        forall|i: int, l: int|
            0 <= l < sp_op_ncols(lhs1, lhs_op) && sp_in_pattern(lhs_structure, i, l)
                && !sp_unit_diag(lhs_structure, i, l) ==> #[trigger] sp_operand_entry(
                lhs1,
                lhs_op,
                i,
                l,
            ) == sp_operand_entry(lhs2, lhs_op, i, l),
    ensures
        forall|i: int, j: int|
            #[trigger] sp_matmul_entry(
                dst0,
                lhs1,
                lhs_op,
                lhs_structure,
                rhs,
                rhs_op,
                rhs_structure,
                alpha,
                beta,
                i,
                j,
            ) == sp_matmul_entry(
                dst0,
                lhs2,
                lhs_op,
                lhs_structure,
                rhs,
                rhs_op,
                rhs_structure,
                alpha,
                beta,
                i,
                j,
            ),
{
    let k = sp_op_ncols(lhs1, lhs_op);
    assert forall|i: int, j: int|
        #[trigger] sp_matmul_entry(
            dst0,
            lhs1,
            lhs_op,
            lhs_structure,
            rhs,
            rhs_op,
            rhs_structure,
            alpha,
            beta,
            i,
            j,
        ) == sp_matmul_entry(
            dst0,
            lhs2,
            lhs_op,
            lhs_structure,
            rhs,
            rhs_op,
            rhs_structure,
            alpha,
            beta,
            i,
            j,
        ) by {
        assert forall|l: int| 0 <= l < k implies #[trigger] sp_prod_term(
            lhs1,
            lhs_op,
            lhs_structure,
            rhs,
            rhs_op,
            rhs_structure,
            i,
            j,
            l,
        ) == sp_prod_term(lhs2, lhs_op, lhs_structure, rhs, rhs_op, rhs_structure, i, j, l) by {
            assert(sp_logical_entry(lhs1, lhs_op, lhs_structure, i, l) == sp_logical_entry(
                lhs2,
                lhs_op,
                lhs_structure,
                i,
                l,
            ));
        }
        lemma_prod_range_congruence(
            lhs1,
            lhs_op,
            lhs_structure,
            rhs,
            rhs_op,
            rhs_structure,
            i,
            j,
            lhs2,
            lhs_op,
            lhs_structure,
            rhs,
            rhs_op,
            rhs_structure,
            i,
            j,
            0,
            k,
        );
    }
}

/// Parallelism invariance: the multiply's contract pins every output entry as
/// a function of the operands and coefficients alone — the `Parallelism`
/// argument does not appear in it. Two outputs that each satisfy the contract
/// for the same inputs are therefore equal, whatever parallelism settings
/// produced them.
pub proof fn lemma_parallelism_invariance<T: Field>(
    dst0: Mat<T>,
    d1: Mat<T>,
    d2: Mat<T>,
    lhs: Mat<T>,
    lhs_op: MatrixOp,
    lhs_structure: BlockStructure,
    rhs: Mat<T>,
    rhs_op: MatrixOp,
    rhs_structure: BlockStructure,
    alpha: T,
    beta: Option<T>,
)
    requires
        d1.sp_nrows() == dst0.sp_nrows(),
        d1.sp_ncols() == dst0.sp_ncols(),
        d2.sp_nrows() == dst0.sp_nrows(),
        d2.sp_ncols() == dst0.sp_ncols(),
        forall|i: int, j: int|
            0 <= i < dst0.sp_nrows() && 0 <= j < dst0.sp_ncols() ==> #[trigger] d1.sp_at(i, j)
                == sp_matmul_entry(
                dst0,
                lhs,
                lhs_op,
                lhs_structure,
                rhs,
                rhs_op,
                rhs_structure,
                alpha,
                beta,
                i,
                j,
            ),
        forall|i: int, j: int|
            0 <= i < dst0.sp_nrows() && 0 <= j < dst0.sp_ncols() ==> #[trigger] d2.sp_at(i, j)
                == sp_matmul_entry(
                dst0,
                lhs,
                lhs_op,
                lhs_structure,
                rhs,
                rhs_op,
                rhs_structure,
                alpha,
                beta,
                i,
                j,
            ),
    ensures
        d1.sp_same(d2),
{
}

} // verus!
