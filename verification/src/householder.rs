//! Householder reflectors: construction of a single elementary reflector,
//! application of one reflector to a matrix from the left, and application
//! of a block of reflectors in compact-WY form.
//!
//! A reflector is the transform `I - tau * v * v^H` with `v = [1; essential]`;
//! constructing one from a pivot scalar and the squared norm of the column
//! tail zeroes that tail, and the block form applies `k` reflectors as one
//! rank-`k` update through the structured matrix multiply.

use vstd::prelude::*;

use crate::field::Field;
use crate::mat::Mat;
use crate::mul::BlockStructure;
use crate::mul::MatrixOp;
use crate::mul::Parallelism;
use crate::mul::matmul;
use crate::mul::lemma_prod_range_congruence;
use crate::mul::lemma_prod_range_shift;
use crate::mul::sp_logical_entry;
use crate::mul::sp_matmul_entry;
use crate::mul::sp_prod_term;
use crate::mul::sp_prod_range;
use crate::mul::triangular_matmul;
use crate::workspace::Workspace;

verus! {

/// The norm of the column being reflected:
/// `sqrt(re(head * conj(head)) + tail_squared_norm)`.
pub open spec fn sp_hh_norm<T: Field>(head: T, tail_squared_norm: T) -> T {
    head.sp_mul(head.sp_conj()).sp_re().sp_add(tail_squared_norm).sp_sqrt()
}

/// The unit-modulus scalar `head / sqrt(head * conj(head))` carrying the
/// pivot's phase (its sign, for a real field).
pub open spec fn sp_hh_sign<T: Field>(head: T) -> T {
    head.sp_mul(head.sp_mul(head.sp_conj()).sp_sqrt().sp_inv())
}

/// The norm with the pivot's phase attached.
pub open spec fn sp_hh_signed_norm<T: Field>(head: T, tail_squared_norm: T) -> T {
    sp_hh_sign(head).sp_mul(sp_hh_norm(head, tail_squared_norm))
}

/// `head + signed_norm`: the denominator of the stable branch, chosen with
/// matching phase so the addition cannot cancel.
pub open spec fn sp_hh_head_with_beta<T: Field>(head: T, tail_squared_norm: T) -> T {
    head.sp_add(sp_hh_signed_norm(head, tail_squared_norm))
}

/// The scale applied to the tail to normalize the reflector's head to one.
pub open spec fn sp_hh_inv<T: Field>(head: T, tail_squared_norm: T) -> T {
    sp_hh_head_with_beta(head, tail_squared_norm).sp_inv()
}

/// The reflector coefficient
/// `tau = 2 / (1 + tail_squared_norm * re(inv * conj(inv)))`.
pub open spec fn sp_hh_tau<T: Field>(head: T, tail_squared_norm: T) -> T {
    let inv = sp_hh_inv(head, tail_squared_norm);
    let denom = T::sp_one().sp_add(tail_squared_norm.sp_mul(inv.sp_mul(inv.sp_conj()).sp_re()));
    T::sp_one().sp_add(T::sp_one()).sp_mul(denom.sp_inv())
}

/// The updated pivot value `beta = -signed_norm`.
pub open spec fn sp_hh_beta<T: Field>(head: T, tail_squared_norm: T) -> T {
    sp_hh_signed_norm(head, tail_squared_norm).sp_neg()
}

/// The inputs on which the construction is defined: every square root taken
/// exists, and no divisor is the additive identity. A zero column (where
/// `head + signed_norm` vanishes) is outside the domain; the factorization
/// driver above this kernel must special-case it.
pub open spec fn sp_hh_ok<T: Field>(head: T, tail_squared_norm: T) -> bool {
    &&& head.sp_mul(head.sp_conj()).sp_re().sp_add(tail_squared_norm).sp_has_sqrt()
    &&& head.sp_mul(head.sp_conj()).sp_has_sqrt()
    &&& head.sp_mul(head.sp_conj()).sp_sqrt() != T::sp_zero()
    &&& sp_hh_head_with_beta(head, tail_squared_norm) != T::sp_zero()
    &&& T::sp_one().sp_add(
        tail_squared_norm.sp_mul(
            sp_hh_inv(head, tail_squared_norm).sp_mul(
                sp_hh_inv(head, tail_squared_norm).sp_conj(),
            ).sp_re(),
        ),
    ) != T::sp_zero()
}

/// Construct an elementary Householder reflector from the pivot scalar and
/// the squared norm of the column tail, scaling the essential (tail) vector
/// in place. Returns `(tau, beta)`: the reflector coefficient and the new
/// pivot value.
#[verifier::spinoff_prover]
pub fn make_householder_in_place_unchecked<T: Field>(
    essential: &mut Vec<T>,
    head: T,
    tail_squared_norm: T,
) -> (r: (T, T))
    requires
        sp_hh_ok(head, tail_squared_norm),
    ensures
        r.0 == sp_hh_tau(head, tail_squared_norm),
        r.1 == sp_hh_beta(head, tail_squared_norm),
        final(essential)@.len() == old(essential)@.len(),
        forall|i: int|
            0 <= i < old(essential)@.len() ==> #[trigger] final(essential)@[i] == old(
                essential,
            )@[i].sp_mul(sp_hh_inv(head, tail_squared_norm)),
{
    let norm = head.mul(head.conj()).re().add(tail_squared_norm).sqrt();
    let sign = head.mul(head.mul(head.conj()).sqrt().inv());
    let signed_norm = sign.mul(norm);
    let head_with_beta = head.add(signed_norm);
    let inv = head_with_beta.inv();
    let len = essential.len();
    let mut i: usize = 0;
    while i < len
        invariant
            i <= len,
            len == essential@.len(),
            inv == sp_hh_inv(head, tail_squared_norm),
            forall|p: int|
                0 <= p < i ==> #[trigger] essential@[p] == old(essential)@[p].sp_mul(inv),
            forall|p: int| i <= p < len ==> #[trigger] essential@[p] == old(essential)@[p],
        decreases len - i,
    {
        let e = essential[i].mul(inv);
        essential.set(i, e);
        i = i + 1;
    }
    let one = T::one();
    let two = one.add(one);
    let tau = two.mul(one.add(tail_squared_norm.mul(inv.mul(inv.conj()).re())).inv());
    (tau, signed_norm.neg())
}

/// The accumulated tail contribution to column `j` of the row vector `w`:
/// the summands `conj(essential[l]) * matrix[1 + l][j]` over `l < hi`,
/// folded from the left.
pub open spec fn sp_tail_dot<T: Field>(m0: Mat<T>, ess: Seq<T>, j: int, hi: int) -> T
    decreases hi,
{
    if hi <= 0 {
        T::sp_zero()
    } else {
        sp_tail_dot(m0, ess, j, hi - 1).sp_add(ess[hi - 1].sp_conj().sp_mul(m0.sp_at(hi, j)))
    }
}

/// Column `j` of the row vector `w = first_row + essential^H * last_rows`.
pub open spec fn sp_apply_w<T: Field>(m0: Mat<T>, ess: Seq<T>, j: int) -> T {
    m0.sp_at(0, j).sp_add(sp_tail_dot(m0, ess, j, ess.len() as int))
}

/// Entry `(i, j)` of `(I - tau * v * v^H) * matrix` with `v = [1; essential]`:
/// a single row is scaled by `1 - tau`; otherwise the first row becomes
/// `first_row - tau * w` and each remaining row `i` becomes
/// `row_i - tau * essential[i - 1] * w`.
pub open spec fn sp_apply_entry<T: Field>(m0: Mat<T>, ess: Seq<T>, tau: T, i: int, j: int) -> T {
    if m0.sp_nrows() == 1 {
        m0.sp_at(0, j).sp_mul(T::sp_one().sp_sub(tau))
    } else if i == 0 {
        m0.sp_at(0, j).sp_sub(tau.sp_mul(sp_apply_w(m0, ess, j)))
    } else {
        m0.sp_at(i, j).sp_add(tau.sp_neg().sp_mul(ess[i - 1].sp_mul(sp_apply_w(m0, ess, j))))
    }
}



/// Scale every entry of a single-row matrix by `factor`.
#[verifier::spinoff_prover]
fn scale_single_row<T: Field>(matrix: &mut Mat<T>, factor: T)
    requires
        old(matrix).wf(),
        old(matrix).sp_nrows() == 1,
    ensures
        final(matrix).wf(),
        final(matrix).sp_nrows() == 1,
        final(matrix).sp_ncols() == old(matrix).sp_ncols(),
        forall|c: int|
            0 <= c < old(matrix).sp_ncols() ==> #[trigger] final(matrix).sp_at(0, c) == old(
                matrix,
            ).sp_at(0, c).sp_mul(factor),
{
    let n = matrix.ncols;
    let mut j: usize = 0;
    while j < n
        invariant
            j <= n,
            matrix.wf(),
            matrix.sp_nrows() == 1,
            matrix.sp_ncols() == n,
            forall|c: int|
                0 <= c < j ==> #[trigger] matrix.sp_at(0, c) == old(matrix).sp_at(0, c).sp_mul(
                    factor,
                ),
            forall|c: int| j <= c < n ==> #[trigger] matrix.sp_at(0, c) == old(matrix).sp_at(0, c),
        decreases n - j,
    {
        let e = matrix.get(0, j).mul(factor);
        matrix.set(0, j, e);
        j = j + 1;
    }
}

/// Overwrite the single row of `tmp` with the first row of `matrix`.
#[verifier::spinoff_prover]
fn copy_first_row<T: Field>(tmp: &mut Mat<T>, matrix: &Mat<T>)
    requires
        old(tmp).wf(),
        matrix.wf(),
        old(tmp).sp_nrows() == 1,
        1 <= matrix.sp_nrows(),
        old(tmp).sp_ncols() == matrix.sp_ncols(),
    ensures
        final(tmp).wf(),
        final(tmp).sp_nrows() == 1,
        final(tmp).sp_ncols() == old(tmp).sp_ncols(),
        forall|c: int|
            0 <= c < matrix.sp_ncols() ==> #[trigger] final(tmp).sp_at(0, c) == matrix.sp_at(0, c),
{
    let n = matrix.ncols;
    let mut j: usize = 0;
    while j < n
        invariant
            j <= n,
            tmp.wf(),
            matrix.wf(),
            tmp.sp_nrows() == 1,
            1 <= matrix.sp_nrows(),
            tmp.sp_ncols() == n,
            matrix.sp_ncols() == n,
            forall|c: int| 0 <= c < j ==> #[trigger] tmp.sp_at(0, c) == matrix.sp_at(0, c),
        decreases n - j,
    {
        let e = matrix.get(0, j);
        tmp.set(0, j, e);
        j = j + 1;
    }
}

/// Subtract `coeff` times the single row of `tmp` from the first row of
/// `matrix`, leaving every other row unchanged.
#[verifier::spinoff_prover]
fn update_first_row<T: Field>(matrix: &mut Mat<T>, coeff: T, tmp: &Mat<T>)
    requires
        old(matrix).wf(),
        tmp.wf(),
        1 <= old(matrix).sp_nrows(),
        tmp.sp_nrows() == 1,
        tmp.sp_ncols() == old(matrix).sp_ncols(),
    ensures
        final(matrix).wf(),
        final(matrix).sp_nrows() == old(matrix).sp_nrows(),
        final(matrix).sp_ncols() == old(matrix).sp_ncols(),
        forall|c: int|
            0 <= c < old(matrix).sp_ncols() ==> #[trigger] final(matrix).sp_at(0, c) == old(
                matrix,
            ).sp_at(0, c).sp_sub(coeff.sp_mul(tmp.sp_at(0, c))),
        forall|r: int, c: int|
            1 <= r < old(matrix).sp_nrows() && 0 <= c < old(matrix).sp_ncols()
                ==> #[trigger] final(matrix).sp_at(r, c) == old(matrix).sp_at(r, c),
{
    let n = matrix.ncols;
    let m = matrix.nrows;
    let mut j: usize = 0;
    while j < n
        invariant
            j <= n,
            matrix.wf(),
            tmp.wf(),
            1 <= m,
            matrix.sp_nrows() == m,
            matrix.sp_ncols() == n,
            tmp.sp_nrows() == 1,
            tmp.sp_ncols() == n,
            forall|c: int|
                0 <= c < j ==> #[trigger] matrix.sp_at(0, c) == old(matrix).sp_at(0, c).sp_sub(
                    coeff.sp_mul(tmp.sp_at(0, c)),
                ),
            forall|c: int| j <= c < n ==> #[trigger] matrix.sp_at(0, c) == old(matrix).sp_at(0, c),
            forall|r: int, c: int|
                1 <= r < m && 0 <= c < n ==> #[trigger] matrix.sp_at(r, c) == old(matrix).sp_at(
                    r,
                    c,
                ),
        decreases n - j,
    {
        let e = matrix.get(0, j).sub(coeff.mul(tmp.get(0, j)));
        matrix.set(0, j, e);
        j = j + 1;
    }
}









/// Fill the single scratch row with `w = first_row + essential^H * last_rows`
/// of `matrix`.
#[verifier::spinoff_prover]
fn compute_w<T: Field>(tmp: &mut Mat<T>, matrix: &Mat<T>, essential: &Vec<T>)
    requires
        old(tmp).wf(),
        matrix.wf(),
        old(tmp).sp_nrows() == 1,
        old(tmp).sp_ncols() == matrix.sp_ncols(),
        matrix.sp_nrows() == 1 + essential@.len(),
        matrix.sp_nrows() >= 2,
    ensures
        final(tmp).wf(),
        final(tmp).sp_nrows() == 1,
        final(tmp).sp_ncols() == old(tmp).sp_ncols(),
        forall|c: int|
            0 <= c < matrix.sp_ncols() ==> #[trigger] final(tmp).sp_at(0, c) == sp_apply_w(
                *matrix,
                essential@,
                c,
            ),
{
    let n = matrix.ncols;
    let len = essential.len();
    let mut c: usize = 0;
    while c < n
        invariant
            c <= n,
            matrix.wf(),
            tmp.wf(),
            tmp.sp_nrows() == 1,
            tmp.sp_ncols() == n,
            matrix.sp_ncols() == n,
            len == essential@.len(),
            matrix.sp_nrows() == 1 + len,
            forall|p: int|
                0 <= p < c ==> #[trigger] tmp.sp_at(0, p) == sp_apply_w(*matrix, essential@, p),
        decreases n - c,
    {
        let mut acc = T::zero();
        let mut l: usize = 0;
        while l < len
            invariant
                l <= len,
                c < n,
                matrix.wf(),
                matrix.sp_ncols() == n,
                len == essential@.len(),
                matrix.sp_nrows() == 1 + len,
                acc == sp_tail_dot(*matrix, essential@, c as int, l as int),
            decreases len - l,
        {
            acc = acc.add(essential[l].conj().mul(matrix.get(1 + l, c)));
            l = l + 1;
        }
        let w = matrix.get(0, c).add(acc);
        tmp.set(0, c, w);
        c = c + 1;
    }
}

/// Apply the rank-1 accumulation
/// `last_rows += (-coeff) * essential * tmp_row` to the rows below the first,
/// leaving the first row unchanged.
#[verifier::spinoff_prover]
fn update_last_rows<T: Field>(matrix: &mut Mat<T>, essential: &Vec<T>, coeff: T, tmp: &Mat<T>)
    requires
        old(matrix).wf(),
        tmp.wf(),
        old(matrix).sp_nrows() == 1 + essential@.len(),
        old(matrix).sp_nrows() >= 2,
        tmp.sp_nrows() == 1,
        tmp.sp_ncols() == old(matrix).sp_ncols(),
    ensures
        final(matrix).wf(),
        final(matrix).sp_nrows() == old(matrix).sp_nrows(),
        final(matrix).sp_ncols() == old(matrix).sp_ncols(),
        forall|c: int|
            0 <= c < old(matrix).sp_ncols() ==> #[trigger] final(matrix).sp_at(0, c) == old(
                matrix,
            ).sp_at(0, c),
        forall|r: int, c: int|
            1 <= r < old(matrix).sp_nrows() && 0 <= c < old(matrix).sp_ncols()
                ==> #[trigger] final(matrix).sp_at(r, c) == old(matrix).sp_at(r, c).sp_add(
                coeff.sp_neg().sp_mul(essential@[r - 1].sp_mul(tmp.sp_at(0, c))),
            ),
{
    let m = matrix.nrows;
    let n = matrix.ncols;
    let mut r: usize = 1;
    while r < m
        invariant
            1 <= r <= m,
            matrix.wf(),
            tmp.wf(),
            matrix.sp_nrows() == m,
            matrix.sp_ncols() == n,
            tmp.sp_nrows() == 1,
            tmp.sp_ncols() == n,
            m == 1 + essential@.len(),
            forall|c: int|
                0 <= c < n ==> #[trigger] matrix.sp_at(0, c) == old(matrix).sp_at(0, c),
            forall|p: int, c: int|
                1 <= p < r && 0 <= c < n ==> #[trigger] matrix.sp_at(p, c) == old(matrix).sp_at(
                    p,
                    c,
                ).sp_add(coeff.sp_neg().sp_mul(essential@[p - 1].sp_mul(tmp.sp_at(0, c)))),
            forall|p: int, c: int|
                r <= p < m && 0 <= c < n ==> #[trigger] matrix.sp_at(p, c) == old(matrix).sp_at(
                    p,
                    c,
                ),
        decreases m - r,
    {
        let mut c: usize = 0;
        while c < n
            invariant
                c <= n,
                1 <= r < m,
                matrix.wf(),
                tmp.wf(),
                matrix.sp_nrows() == m,
                matrix.sp_ncols() == n,
                tmp.sp_nrows() == 1,
                tmp.sp_ncols() == n,
                m == 1 + essential@.len(),
                forall|q: int|
                    0 <= q < n ==> #[trigger] matrix.sp_at(0, q) == old(matrix).sp_at(0, q),
                forall|p: int, q: int|
                    1 <= p < r && 0 <= q < n ==> #[trigger] matrix.sp_at(p, q) == old(
                        matrix,
                    ).sp_at(p, q).sp_add(
                        coeff.sp_neg().sp_mul(essential@[p - 1].sp_mul(tmp.sp_at(0, q))),
                    ),
                forall|q: int|
                    0 <= q < c ==> #[trigger] matrix.sp_at(r as int, q) == old(matrix).sp_at(
                        r as int,
                        q,
                    ).sp_add(coeff.sp_neg().sp_mul(essential@[r - 1].sp_mul(tmp.sp_at(0, q)))),
                forall|q: int|
                    c <= q < n ==> #[trigger] matrix.sp_at(r as int, q) == old(matrix).sp_at(
                        r as int,
                        q,
                    ),
                forall|p: int, q: int|
                    r < p < m && 0 <= q < n ==> #[trigger] matrix.sp_at(p, q) == old(
                        matrix,
                    ).sp_at(p, q),
            decreases n - c,
        {
            let e = matrix.get(r, c).add(coeff.neg().mul(essential[r - 1].mul(tmp.get(0, c))));
            matrix.set(r, c, e);
            c = c + 1;
        }
        r = r + 1;
    }
}



/// The three pieces of the tall-matrix update assemble into the reflector's
/// entrywise result.
#[verifier::spinoff_prover]
proof fn lemma_apply_assembly<T: Field>(
    m0: Mat<T>,
    cur: Mat<T>,
    tmp: Mat<T>,
    ess: Seq<T>,
    tau: T,
    m: int,
    n: int,
)
    requires
        m == m0.sp_nrows(),
        n == m0.sp_ncols(),
        m == 1 + ess.len(),
        m >= 2,
        forall|c: int| 0 <= c < n ==> #[trigger] tmp.sp_at(0, c) == sp_apply_w(m0, ess, c),
        forall|c: int|
            0 <= c < n ==> #[trigger] cur.sp_at(0, c) == m0.sp_at(0, c).sp_sub(
                tau.sp_mul(tmp.sp_at(0, c)),
            ),
        forall|r: int, c: int|
            1 <= r < m && 0 <= c < n ==> #[trigger] cur.sp_at(r, c) == m0.sp_at(r, c).sp_add(
                tau.sp_neg().sp_mul(ess[r - 1].sp_mul(tmp.sp_at(0, c))),
            ),
    ensures
        forall|i: int, j: int|
            0 <= i < m && 0 <= j < n ==> #[trigger] cur.sp_at(i, j) == sp_apply_entry(
                m0,
                ess,
                tau,
                i,
                j,
            ),
{
    assert forall|i: int, j: int| 0 <= i < m && 0 <= j < n implies #[trigger] cur.sp_at(i, j)
        == sp_apply_entry(m0, ess, tau, i, j) by {
        assert(tmp.sp_at(0, j) == sp_apply_w(m0, ess, j));
    }
}

/// Apply the reflector `(I - tau * v * v^H)`, `v = [1; essential]`, to
/// `matrix` from the left, in place. A single-row matrix is scaled by
/// `1 - tau`; otherwise `w = first_row + essential^H * last_rows` is formed
/// in a scratch row borrowed from `stack`, the first row is updated to
/// `first_row - tau * w`, and the remaining rows receive the rank-1 update
/// `last_rows - tau * essential * w`. The scratch is returned: the workspace
/// capacity is unchanged on exit.
#[verifier::spinoff_prover]
pub fn apply_househodler_on_the_left<T: Field>(
    matrix: &mut Mat<T>,
    essential: &Vec<T>,
    householder_coeff: T,
    stack: &mut Workspace<T>,
)
    requires
        old(matrix).wf(),
        old(matrix).sp_nrows() == 1 + essential@.len(),
        old(matrix).sp_ncols() <= old(stack).sp_capacity(),
        old(stack).sp_capacity() <= usize::MAX,
    ensures
        final(matrix).wf(),
        final(matrix).sp_nrows() == old(matrix).sp_nrows(),
        final(matrix).sp_ncols() == old(matrix).sp_ncols(),
        forall|i: int, j: int|
            0 <= i < old(matrix).sp_nrows() && 0 <= j < old(matrix).sp_ncols()
                ==> #[trigger] final(matrix).sp_at(i, j) == sp_apply_entry(
                *old(matrix),
                essential@,
                householder_coeff,
                i,
                j,
            ),
        final(stack).sp_capacity() == old(stack).sp_capacity(),
{
    let m = matrix.nrows;
    let n = matrix.ncols;
    if m == 1 {
        let factor = T::one().sub(householder_coeff);
        scale_single_row(matrix, factor);
    } else {
        let mut tmp = stack.take_mat(1, n);
        compute_w(&mut tmp, matrix, essential);
        update_last_rows(matrix, essential, householder_coeff, &tmp);
        update_first_row(matrix, householder_coeff, &tmp);
        proof {
            lemma_apply_assembly(
                *old(matrix),
                *matrix,
                tmp,
                essential@,
                householder_coeff,
                m as int,
                n as int,
            );
        }
        stack.give_back(tmp);
    }
}


/// The `op` through which the combination factor is read: as stored when
/// accumulating forward, conjugate-transposed when accumulating backward.
pub open spec fn sp_wy_factor_op(forward: bool) -> MatrixOp {
    if forward {
        MatrixOp::Identity
    } else {
        MatrixOp::ConjTranspose
    }
}

/// The triangular pattern of the combination factor as seen through its `op`.
pub open spec fn sp_wy_factor_structure(forward: bool) -> BlockStructure {
    if forward {
        BlockStructure::TriangularUpper
    } else {
        BlockStructure::TriangularLower
    }
}

/// Entry `(i, l)` of `op(T)` for the combination factor `T`.
pub open spec fn sp_wy_factor_entry<T: Field>(factor: Mat<T>, forward: bool, i: int, l: int) -> T {
    sp_logical_entry(factor, sp_wy_factor_op(forward), sp_wy_factor_structure(forward), i, l)
}

/// Entry `(i, j)` of `tmp0 = basis_top^H * matrix_top + basis_bot^H * matrix_bot`,
/// where `basis_top` is the unit-lower-triangular top `k x k` block of the
/// basis (read conjugate-transposed, so unit-upper) and `basis_bot` the rest.
pub open spec fn sp_wy_tmp0<T: Field>(m0: Mat<T>, basis: Mat<T>, i: int, j: int) -> T {
    sp_prod_range(
        basis,
        MatrixOp::ConjTranspose,
        BlockStructure::UnitTriangularUpper,
        m0,
        MatrixOp::Identity,
        BlockStructure::Rectangular,
        i,
        j,
        0,
        basis.sp_ncols(),
    ).sp_add(
        sp_prod_range(
            basis,
            MatrixOp::ConjTranspose,
            BlockStructure::Rectangular,
            m0,
            MatrixOp::Identity,
            BlockStructure::Rectangular,
            i,
            j,
            basis.sp_ncols(),
            basis.sp_nrows(),
        ),
    )
}

/// The summands of entry `(i, j)` of `tmp1 = op(T) * tmp0` over the inner
/// indices `[0, hi)`, folded from the left.
pub open spec fn sp_wy_tmp1_range<T: Field>(
    m0: Mat<T>,
    basis: Mat<T>,
    factor: Mat<T>,
    forward: bool,
    i: int,
    j: int,
    hi: int,
) -> T
    decreases hi,
{
    if hi <= 0 {
        T::sp_zero()
    } else {
        sp_wy_tmp1_range(m0, basis, factor, forward, i, j, hi - 1).sp_add(
            sp_wy_factor_entry(factor, forward, i, hi - 1).sp_mul(
                sp_wy_tmp0(m0, basis, hi - 1, j),
            ),
        )
    }
}

/// Entry `(i, j)` of `tmp1 = op(T) * tmp0`.
pub open spec fn sp_wy_tmp1<T: Field>(
    m0: Mat<T>,
    basis: Mat<T>,
    factor: Mat<T>,
    forward: bool,
    i: int,
    j: int,
) -> T {
    sp_wy_tmp1_range(m0, basis, factor, forward, i, j, basis.sp_ncols())
}

/// Entry `(i, l)` of the reflector basis `V` as the final rank-k update reads
/// it: unit-lower-triangular in its top `k x k` block, dense below.
pub open spec fn sp_wy_vterm<T: Field>(basis: Mat<T>, i: int, l: int) -> T {
    if i < basis.sp_ncols() {
        sp_logical_entry(basis, MatrixOp::Identity, BlockStructure::UnitTriangularLower, i, l)
    } else {
        basis.sp_at(i, l)
    }
}

/// The summands of entry `(i, j)` of `V * tmp1` over the inner indices
/// `[0, hi)`, folded from the left.
pub open spec fn sp_wy_update_range<T: Field>(
    m0: Mat<T>,
    basis: Mat<T>,
    factor: Mat<T>,
    forward: bool,
    i: int,
    j: int,
    hi: int,
) -> T
    decreases hi,
{
    if hi <= 0 {
        T::sp_zero()
    } else {
        sp_wy_update_range(m0, basis, factor, forward, i, j, hi - 1).sp_add(
            sp_wy_vterm(basis, i, hi - 1).sp_mul(sp_wy_tmp1(m0, basis, factor, forward, hi - 1, j)),
        )
    }
}

/// Entry `(i, j)` of the compact-WY block application
/// `matrix - V * op(T) * (V^H * matrix)` with `V = basis` (unit lower
/// triangular in its top block) and `T = factor`: the whole effect of
/// applying the block of reflectors at once.
pub open spec fn sp_block_apply_entry<T: Field>(
    m0: Mat<T>,
    basis: Mat<T>,
    factor: Mat<T>,
    forward: bool,
    i: int,
    j: int,
) -> T {
    m0.sp_at(i, j).sp_sub(
        sp_wy_update_range(m0, basis, factor, forward, i, j, basis.sp_ncols()),
    )
}

/// The two accumulations into the first scratch buffer add up to `tmp0`.
#[verifier::spinoff_prover]
proof fn lemma_wy_tmp0_bridge<T: Field>(
    tmp0_seed: Mat<T>,
    tmp0_mid: Mat<T>,
    tmp0: Mat<T>,
    basis_tri: Mat<T>,
    basis_bot: Mat<T>,
    mtop: Mat<T>,
    mbot: Mat<T>,
    m0: Mat<T>,
    basis: Mat<T>,
    k: int,
    m: int,
    n: int,
)
    requires
        k == basis.sp_ncols(),
        m == basis.sp_nrows(),
        0 <= k <= m,
        n == m0.sp_ncols(),
        m == m0.sp_nrows(),
        basis_tri.sp_nrows() == k,
        basis_tri.sp_ncols() == k,
        basis_bot.sp_nrows() == m - k,
        basis_bot.sp_ncols() == k,
        mtop.sp_nrows() == k,
        mbot.sp_nrows() == m - k,
        forall|r: int, c: int|
            0 <= r < k && 0 <= c < k ==> #[trigger] basis_tri.sp_at(r, c) == basis.sp_at(r, c),
        forall|r: int, c: int|
            0 <= r < m - k && 0 <= c < k ==> #[trigger] basis_bot.sp_at(r, c) == basis.sp_at(
                k + r,
                c,
            ),
        forall|r: int, c: int|
            0 <= r < k && 0 <= c < n ==> #[trigger] mtop.sp_at(r, c) == m0.sp_at(r, c),
        forall|r: int, c: int|
            0 <= r < m - k && 0 <= c < n ==> #[trigger] mbot.sp_at(r, c) == m0.sp_at(k + r, c),
        forall|i: int, j: int|
            0 <= i < k && 0 <= j < n ==> #[trigger] tmp0_mid.sp_at(i, j) == sp_matmul_entry(
                tmp0_seed,
                basis_tri,
                MatrixOp::ConjTranspose,
                BlockStructure::UnitTriangularUpper,
                mtop,
                MatrixOp::Identity,
                BlockStructure::Rectangular,
                T::sp_one(),
                Option::None,
                i,
                j,
            ),
        forall|i: int, j: int|
            0 <= i < k && 0 <= j < n ==> #[trigger] tmp0.sp_at(i, j) == sp_matmul_entry(
                tmp0_mid,
                basis_bot,
                MatrixOp::ConjTranspose,
                BlockStructure::Rectangular,
                mbot,
                MatrixOp::Identity,
                BlockStructure::Rectangular,
                T::sp_one(),
                Option::Some(T::sp_one()),
                i,
                j,
            ),
    ensures
        forall|i: int, j: int|
            0 <= i < k && 0 <= j < n ==> #[trigger] tmp0.sp_at(i, j) == sp_wy_tmp0(m0, basis, i, j),
{
    T::laws_add();
    T::laws_mul();
    assert forall|i: int, j: int| 0 <= i < k && 0 <= j < n implies #[trigger] tmp0.sp_at(i, j)
        == sp_wy_tmp0(m0, basis, i, j) by {
        assert forall|l: int| 0 <= l < k implies #[trigger] sp_prod_term(
            basis_tri,
            MatrixOp::ConjTranspose,
            BlockStructure::UnitTriangularUpper,
            mtop,
            MatrixOp::Identity,
            BlockStructure::Rectangular,
            i,
            j,
            l,
        ) == sp_prod_term(
            basis,
            MatrixOp::ConjTranspose,
            BlockStructure::UnitTriangularUpper,
            m0,
            MatrixOp::Identity,
            BlockStructure::Rectangular,
            i,
            j,
            l,
        ) by {
            assert(sp_logical_entry(
                basis_tri,
                MatrixOp::ConjTranspose,
                BlockStructure::UnitTriangularUpper,
                i,
                l,
            ) == sp_logical_entry(
                basis,
                MatrixOp::ConjTranspose,
                BlockStructure::UnitTriangularUpper,
                i,
                l,
            ));
        }
        lemma_prod_range_congruence(
            basis_tri,
            MatrixOp::ConjTranspose,
            BlockStructure::UnitTriangularUpper,
            mtop,
            MatrixOp::Identity,
            BlockStructure::Rectangular,
            i,
            j,
            basis,
            MatrixOp::ConjTranspose,
            BlockStructure::UnitTriangularUpper,
            m0,
            MatrixOp::Identity,
            BlockStructure::Rectangular,
            i,
            j,
            0,
            k,
        );
        assert forall|l: int| 0 <= l < m - k implies #[trigger] sp_prod_term(
            basis_bot,
            MatrixOp::ConjTranspose,
            BlockStructure::Rectangular,
            mbot,
            MatrixOp::Identity,
            BlockStructure::Rectangular,
            i,
            j,
            l,
        ) == sp_prod_term(
            basis,
            MatrixOp::ConjTranspose,
            BlockStructure::Rectangular,
            m0,
            MatrixOp::Identity,
            BlockStructure::Rectangular,
            i,
            j,
            l + k,
        ) by {
            assert(basis_bot.sp_at(l, i) == basis.sp_at(k + l, i));
            assert(mbot.sp_at(l, j) == m0.sp_at(k + l, j));
        }
        lemma_prod_range_shift(
            basis_bot,
            MatrixOp::ConjTranspose,
            BlockStructure::Rectangular,
            mbot,
            MatrixOp::Identity,
            BlockStructure::Rectangular,
            i,
            j,
            basis,
            MatrixOp::ConjTranspose,
            BlockStructure::Rectangular,
            m0,
            MatrixOp::Identity,
            BlockStructure::Rectangular,
            i,
            j,
            0,
            m - k,
            k,
        );
    }
}

/// Compute `tmp0 = basis_top^H * matrix_top + basis_bot^H * matrix_bot`
/// through two structured multiplies: the top block through its
/// unit-triangular tag, the bottom block by plain accumulation.
#[verifier::spinoff_prover]
fn wy_compute_tmp0<T: Field>(
    tmp0: &mut Mat<T>,
    matrix: &Mat<T>,
    basis: &Mat<T>,
    parallelism: Parallelism,
)
    requires
        old(tmp0).wf(),
        matrix.wf(),
        basis.wf(),
        old(tmp0).sp_nrows() == basis.sp_ncols(),
        old(tmp0).sp_ncols() == matrix.sp_ncols(),
        matrix.sp_nrows() == basis.sp_nrows(),
        basis.sp_ncols() <= basis.sp_nrows(),
    ensures
        final(tmp0).wf(),
        final(tmp0).sp_nrows() == old(tmp0).sp_nrows(),
        final(tmp0).sp_ncols() == old(tmp0).sp_ncols(),
        forall|i: int, j: int|
            0 <= i < basis.sp_ncols() && 0 <= j < matrix.sp_ncols() ==> #[trigger] final(tmp0).sp_at(i, j) == sp_wy_tmp0(*matrix, *basis, i, j),
{
    let k = basis.ncols;
    let m = basis.nrows;
    let n = matrix.ncols;
    let basis_tri = basis.submatrix(0, 0, k, k);
    let basis_bot = basis.submatrix(k, 0, m - k, k);
    let mtop = matrix.submatrix(0, 0, k, n);
    let mbot = matrix.submatrix(k, 0, m - k, n);
    let ghost tmp0_seed = *tmp0;
    triangular_matmul(
        tmp0,
        &basis_tri,
        BlockStructure::UnitTriangularUpper,
        MatrixOp::ConjTranspose,
        &mtop,
        BlockStructure::Rectangular,
        MatrixOp::Identity,
        T::one(),
        Option::None,
        parallelism,
    );
    let ghost tmp0_mid = *tmp0;
    triangular_matmul(
        tmp0,
        &basis_bot,
        BlockStructure::Rectangular,
        MatrixOp::ConjTranspose,
        &mbot,
        BlockStructure::Rectangular,
        MatrixOp::Identity,
        T::one(),
        Option::Some(T::one()),
        parallelism,
    );
    proof {
        lemma_wy_tmp0_bridge(
            tmp0_seed,
            tmp0_mid,
            *tmp0,
            basis_tri,
            basis_bot,
            mtop,
            mbot,
            *matrix,
            *basis,
            k as int,
            m as int,
            n as int,
        );
    }
}

/// The structured product of `op(T)` with the first scratch buffer equals the
/// partial sums defining `tmp1`.
#[verifier::spinoff_prover]
proof fn lemma_wy_tmp1_range_bridge<T: Field>(
    factor: Mat<T>,
    forward: bool,
    tmp0: Mat<T>,
    m0: Mat<T>,
    basis: Mat<T>,
    i: int,
    j: int,
    hi: int,
)
    requires
        0 <= hi <= basis.sp_ncols(),
        forall|l: int, c: int|
            0 <= l < basis.sp_ncols() && 0 <= c < tmp0.sp_ncols() ==> #[trigger] tmp0.sp_at(l, c)
                == sp_wy_tmp0(m0, basis, l, c),
        0 <= j < tmp0.sp_ncols(),
    ensures
        sp_prod_range(
            factor,
            sp_wy_factor_op(forward),
            sp_wy_factor_structure(forward),
            tmp0,
            MatrixOp::Identity,
            BlockStructure::Rectangular,
            i,
            j,
            0,
            hi,
        ) == sp_wy_tmp1_range(m0, basis, factor, forward, i, j, hi),
    decreases hi,
{
    if hi > 0 {
        lemma_wy_tmp1_range_bridge(factor, forward, tmp0, m0, basis, i, j, hi - 1);
    }
}

/// Compute `tmp1 = op(T) * tmp0` through one structured multiply exploiting
/// the combination factor's triangular tag.
#[verifier::spinoff_prover]
fn wy_compute_tmp1<T: Field>(
    tmp1: &mut Mat<T>,
    factor: &Mat<T>,
    forward: bool,
    tmp0: &Mat<T>,
    parallelism: Parallelism,
    gm0: Ghost<Mat<T>>,
    gbasis: Ghost<Mat<T>>,
)
    requires
        old(tmp1).wf(),
        factor.wf(),
        tmp0.wf(),
        factor.sp_nrows() == gbasis@.sp_ncols(),
        factor.sp_ncols() == gbasis@.sp_ncols(),
        tmp0.sp_nrows() == gbasis@.sp_ncols(),
        old(tmp1).sp_nrows() == gbasis@.sp_ncols(),
        old(tmp1).sp_ncols() == tmp0.sp_ncols(),
        forall|l: int, c: int|
            0 <= l < gbasis@.sp_ncols() && 0 <= c < tmp0.sp_ncols() ==> #[trigger] tmp0.sp_at(
                l,
                c,
            ) == sp_wy_tmp0(gm0@, gbasis@, l, c),
    ensures
        final(tmp1).wf(),
        final(tmp1).sp_nrows() == old(tmp1).sp_nrows(),
        final(tmp1).sp_ncols() == old(tmp1).sp_ncols(),
        forall|i: int, j: int|
            0 <= i < gbasis@.sp_ncols() && 0 <= j < tmp0.sp_ncols() ==> #[trigger] final(tmp1).sp_at(i, j) == sp_wy_tmp1(gm0@, gbasis@, *factor, forward, i, j),
{
    let fop = if forward {
        MatrixOp::Identity
    } else {
        MatrixOp::ConjTranspose
    };
    let ftag = if forward {
        BlockStructure::TriangularUpper
    } else {
        BlockStructure::TriangularLower
    };
    triangular_matmul(
        tmp1,
        factor,
        ftag,
        fop,
        tmp0,
        BlockStructure::Rectangular,
        MatrixOp::Identity,
        T::one(),
        Option::None,
        parallelism,
    );
    proof {
        T::laws_mul();
        let k = gbasis@.sp_ncols();
        assert forall|i: int, j: int| 0 <= i < k && 0 <= j < tmp0.sp_ncols()
            implies #[trigger] tmp1.sp_at(i, j) == sp_wy_tmp1(
            gm0@,
            gbasis@,
            *factor,
            forward,
            i,
            j,
        ) by {
            lemma_wy_tmp1_range_bridge(*factor, forward, *tmp0, gm0@, gbasis@, i, j, k);
        }
    }
}

/// The structured product of a stored piece of `V` with the second scratch
/// buffer equals the partial sums defining the final rank-k update, row by
/// row: `row` names the matrix row, `iloc` its row within the piece.
#[verifier::spinoff_prover]
proof fn lemma_wy_update_range_bridge<T: Field>(
    vmat: Mat<T>,
    vtag: BlockStructure,
    tmp1mat: Mat<T>,
    m0: Mat<T>,
    basis: Mat<T>,
    factor: Mat<T>,
    forward: bool,
    row: int,
    iloc: int,
    j: int,
    hi: int,
)
    requires
        0 <= hi,
        forall|l: int|
            0 <= l < hi ==> #[trigger] sp_prod_term(
                vmat,
                MatrixOp::Identity,
                vtag,
                tmp1mat,
                MatrixOp::Identity,
                BlockStructure::Rectangular,
                iloc,
                j,
                l,
            ) == sp_wy_vterm(basis, row, l).sp_mul(
                sp_wy_tmp1(m0, basis, factor, forward, l, j),
            ),
    ensures
        sp_prod_range(
            vmat,
            MatrixOp::Identity,
            vtag,
            tmp1mat,
            MatrixOp::Identity,
            BlockStructure::Rectangular,
            iloc,
            j,
            0,
            hi,
        ) == sp_wy_update_range(m0, basis, factor, forward, row, j, hi),
    decreases hi,
{
    if hi > 0 {
        lemma_wy_update_range_bridge(
            vmat,
            vtag,
            tmp1mat,
            m0,
            basis,
            factor,
            forward,
            row,
            iloc,
            j,
            hi - 1,
        );
    }
}

/// Subtract `basis_top * tmp1` from the top `k` rows (held in `mtop`) through
/// one structured multiply with the unit-lower-triangular tag.
#[verifier::spinoff_prover]
fn wy_update_top<T: Field>(
    mtop: &mut Mat<T>,
    basis_tri: &Mat<T>,
    tmp1: &Mat<T>,
    parallelism: Parallelism,
    forward: bool,
    gm0: Ghost<Mat<T>>,
    gbasis: Ghost<Mat<T>>,
    gfactor: Ghost<Mat<T>>,
)
    requires
        old(mtop).wf(),
        basis_tri.wf(),
        tmp1.wf(),
        basis_tri.sp_nrows() == gbasis@.sp_ncols(),
        basis_tri.sp_ncols() == gbasis@.sp_ncols(),
        tmp1.sp_nrows() == gbasis@.sp_ncols(),
        old(mtop).sp_nrows() == gbasis@.sp_ncols(),
        old(mtop).sp_ncols() == tmp1.sp_ncols(),
        forall|r: int, c: int|
            0 <= r < gbasis@.sp_ncols() && 0 <= c < gbasis@.sp_ncols()
                ==> #[trigger] basis_tri.sp_at(r, c) == gbasis@.sp_at(r, c),
        forall|r: int, c: int|
            0 <= r < gbasis@.sp_ncols() && 0 <= c < tmp1.sp_ncols() ==> #[trigger] old(
                mtop,
            ).sp_at(r, c) == gm0@.sp_at(r, c),
        forall|l: int, c: int|
            0 <= l < gbasis@.sp_ncols() && 0 <= c < tmp1.sp_ncols() ==> #[trigger] tmp1.sp_at(
                l,
                c,
            ) == sp_wy_tmp1(gm0@, gbasis@, gfactor@, forward, l, c),
    ensures
        final(mtop).wf(),
        final(mtop).sp_nrows() == old(mtop).sp_nrows(),
        final(mtop).sp_ncols() == old(mtop).sp_ncols(),
        forall|i: int, j: int|
            0 <= i < gbasis@.sp_ncols() && 0 <= j < tmp1.sp_ncols() ==> #[trigger] final(mtop).sp_at(i, j) == sp_block_apply_entry(gm0@, gbasis@, gfactor@, forward, i, j),
{
    triangular_matmul(
        mtop,
        basis_tri,
        BlockStructure::UnitTriangularLower,
        MatrixOp::Identity,
        tmp1,
        BlockStructure::Rectangular,
        MatrixOp::Identity,
        T::one().neg(),
        Option::Some(T::one()),
        parallelism,
    );
    proof {
        T::laws_add();
        T::laws_mul();
        let k = gbasis@.sp_ncols();
        assert forall|i: int, j: int| 0 <= i < k && 0 <= j < tmp1.sp_ncols()
            implies #[trigger] mtop.sp_at(i, j) == sp_block_apply_entry(
            gm0@,
            gbasis@,
            gfactor@,
            forward,
            i,
            j,
        ) by {
            assert forall|l: int| 0 <= l < k implies #[trigger] sp_prod_term(
                *basis_tri,
                MatrixOp::Identity,
                BlockStructure::UnitTriangularLower,
                *tmp1,
                MatrixOp::Identity,
                BlockStructure::Rectangular,
                i,
                j,
                l,
            ) == sp_wy_vterm(gbasis@, i, l).sp_mul(
                sp_wy_tmp1(gm0@, gbasis@, gfactor@, forward, l, j),
            ) by {
                assert(sp_logical_entry(
                    *basis_tri,
                    MatrixOp::Identity,
                    BlockStructure::UnitTriangularLower,
                    i,
                    l,
                ) == sp_wy_vterm(gbasis@, i, l));
            }
            lemma_wy_update_range_bridge(
                *basis_tri,
                BlockStructure::UnitTriangularLower,
                *tmp1,
                gm0@,
                gbasis@,
                gfactor@,
                forward,
                i,
                i,
                j,
                k,
            );
        }
    }
}

/// Subtract `basis_bot * tmp1` from the rows below the top block (held in
/// `mbot`) by plain accumulation.
#[verifier::spinoff_prover]
fn wy_update_bot<T: Field>(
    mbot: &mut Mat<T>,
    basis_bot: &Mat<T>,
    tmp1: &Mat<T>,
    parallelism: Parallelism,
    forward: bool,
    gm0: Ghost<Mat<T>>,
    gbasis: Ghost<Mat<T>>,
    gfactor: Ghost<Mat<T>>,
)
    requires
        old(mbot).wf(),
        basis_bot.wf(),
        tmp1.wf(),
        gbasis@.sp_ncols() <= gbasis@.sp_nrows(),
        basis_bot.sp_nrows() == gbasis@.sp_nrows() - gbasis@.sp_ncols(),
        basis_bot.sp_ncols() == gbasis@.sp_ncols(),
        tmp1.sp_nrows() == gbasis@.sp_ncols(),
        old(mbot).sp_nrows() == basis_bot.sp_nrows(),
        old(mbot).sp_ncols() == tmp1.sp_ncols(),
        forall|r: int, c: int|
            0 <= r < basis_bot.sp_nrows() && 0 <= c < gbasis@.sp_ncols()
                ==> #[trigger] basis_bot.sp_at(r, c) == gbasis@.sp_at(gbasis@.sp_ncols() + r, c),
        forall|r: int, c: int|
            0 <= r < basis_bot.sp_nrows() && 0 <= c < tmp1.sp_ncols() ==> #[trigger] old(
                mbot,
            ).sp_at(r, c) == gm0@.sp_at(gbasis@.sp_ncols() + r, c),
        forall|l: int, c: int|
            0 <= l < gbasis@.sp_ncols() && 0 <= c < tmp1.sp_ncols() ==> #[trigger] tmp1.sp_at(
                l,
                c,
            ) == sp_wy_tmp1(gm0@, gbasis@, gfactor@, forward, l, c),
    ensures
        final(mbot).wf(),
        final(mbot).sp_nrows() == old(mbot).sp_nrows(),
        final(mbot).sp_ncols() == old(mbot).sp_ncols(),
        forall|i: int, j: int|
            0 <= i < basis_bot.sp_nrows() && 0 <= j < tmp1.sp_ncols() ==> #[trigger] final(mbot).sp_at(i, j) == sp_block_apply_entry(
                gm0@,
                gbasis@,
                gfactor@,
                forward,
                gbasis@.sp_ncols() + i,
                j,
            ),
{
    triangular_matmul(
        mbot,
        basis_bot,
        BlockStructure::Rectangular,
        MatrixOp::Identity,
        tmp1,
        BlockStructure::Rectangular,
        MatrixOp::Identity,
        T::one().neg(),
        Option::Some(T::one()),
        parallelism,
    );
    proof {
        T::laws_add();
        T::laws_mul();
        let k = gbasis@.sp_ncols();
        assert forall|i: int, j: int| 0 <= i < basis_bot.sp_nrows() && 0 <= j < tmp1.sp_ncols()
            implies #[trigger] mbot.sp_at(i, j) == sp_block_apply_entry(
            gm0@,
            gbasis@,
            gfactor@,
            forward,
            k + i,
            j,
        ) by {
            assert forall|l: int| 0 <= l < k implies #[trigger] sp_prod_term(
                *basis_bot,
                MatrixOp::Identity,
                BlockStructure::Rectangular,
                *tmp1,
                MatrixOp::Identity,
                BlockStructure::Rectangular,
                i,
                j,
                l,
            ) == sp_wy_vterm(gbasis@, k + i, l).sp_mul(
                sp_wy_tmp1(gm0@, gbasis@, gfactor@, forward, l, j),
            ) by {
                assert(basis_bot.sp_at(i, l) == gbasis@.sp_at(k + i, l));
            }
            lemma_wy_update_range_bridge(
                *basis_bot,
                BlockStructure::Rectangular,
                *tmp1,
                gm0@,
                gbasis@,
                gfactor@,
                forward,
                k + i,
                i,
                j,
                k,
            );
        }
    }
}

/// The two pasted pieces assemble into the block application's entrywise
/// result.
#[verifier::spinoff_prover]
proof fn lemma_block_assembly<T: Field>(
    m0: Mat<T>,
    cur: Mat<T>,
    mtop: Mat<T>,
    mbot: Mat<T>,
    basis: Mat<T>,
    factor: Mat<T>,
    forward: bool,
    k: int,
    m: int,
    n: int,
)
    requires
        k == basis.sp_ncols(),
        0 <= k <= m,
        forall|i: int, j: int|
            0 <= i < k && 0 <= j < n ==> #[trigger] mtop.sp_at(i, j) == sp_block_apply_entry(
                m0,
                basis,
                factor,
                forward,
                i,
                j,
            ),
        forall|i: int, j: int|
            0 <= i < m - k && 0 <= j < n ==> #[trigger] mbot.sp_at(i, j) == sp_block_apply_entry(
                m0,
                basis,
                factor,
                forward,
                k + i,
                j,
            ),
        forall|i: int, j: int|
            0 <= i < k && 0 <= j < n ==> #[trigger] cur.sp_at(i, j) == mtop.sp_at(i, j),
        forall|i: int, j: int|
            0 <= i < m - k && 0 <= j < n ==> #[trigger] cur.sp_at(k + i, j) == mbot.sp_at(i, j),
    ensures
        forall|i: int, j: int|
            0 <= i < m && 0 <= j < n ==> #[trigger] cur.sp_at(i, j) == sp_block_apply_entry(
                m0,
                basis,
                factor,
                forward,
                i,
                j,
            ),
{
    assert forall|i: int, j: int| 0 <= i < m && 0 <= j < n implies #[trigger] cur.sp_at(i, j)
        == sp_block_apply_entry(m0, basis, factor, forward, i, j) by {
        if i >= k {
            assert(cur.sp_at(k + (i - k), j) == mbot.sp_at(i - k, j));
        }
    }
}

/// Apply a block of `k` reflectors in compact-WY form to `matrix` from the
/// left, in place: `matrix -= V * op(T) * (V^H * matrix)`, where `V` is the
/// `basis` (unit lower triangular in its top `k x k` block, holding the
/// essential vectors) and `T` is the `householder_factor`, read as stored
/// (upper triangular) when `forward` and conjugate-transposed otherwise. The
/// two `k x ncols` scratch buffers are borrowed from `stack` and returned:
/// the workspace capacity is unchanged on exit. All four structured-multiply
/// steps inherit `parallelism`; the ensured result does not depend on it.
#[verifier::spinoff_prover]
pub fn apply_block_househodler_on_the_left<T: Field>(
    matrix: &mut Mat<T>,
    basis: &Mat<T>,
    householder_factor: &Mat<T>,
    forward: bool,
    parallelism: Parallelism,
    stack: &mut Workspace<T>,
)
    requires
        old(matrix).wf(),
        basis.wf(),
        householder_factor.wf(),
        old(matrix).sp_nrows() == basis.sp_nrows(),
        householder_factor.sp_nrows() == basis.sp_ncols(),
        householder_factor.sp_ncols() == basis.sp_ncols(),
        basis.sp_ncols() <= old(matrix).sp_nrows(),
        2 * basis.sp_ncols() * old(matrix).sp_ncols() <= old(stack).sp_capacity(),
        old(stack).sp_capacity() <= usize::MAX,
    ensures
        final(matrix).wf(),
        final(matrix).sp_nrows() == old(matrix).sp_nrows(),
        final(matrix).sp_ncols() == old(matrix).sp_ncols(),
        forall|i: int, j: int|
            0 <= i < old(matrix).sp_nrows() && 0 <= j < old(matrix).sp_ncols()
                ==> #[trigger] final(matrix).sp_at(i, j) == sp_block_apply_entry(
                *old(matrix),
                *basis,
                *householder_factor,
                forward,
                i,
                j,
            ),
        final(stack).sp_capacity() == old(stack).sp_capacity(),
{
    let k = basis.ncols;
    let m = matrix.nrows;
    let n = matrix.ncols;
    proof {
        assert(2 * (k as int) * (n as int) == k as int * n as int + k as int * n as int)
            by (nonlinear_arith);
        assert(k as int * n as int >= 0) by (nonlinear_arith);
    }
    let mut tmp1 = stack.take_mat(k, n);
    let mut tmp0 = stack.take_mat(k, n);
    wy_compute_tmp0(&mut tmp0, matrix, basis, parallelism);
    wy_compute_tmp1(
        &mut tmp1,
        householder_factor,
        forward,
        &tmp0,
        parallelism,
        Ghost(*matrix),
        Ghost(*basis),
    );
    stack.give_back(tmp0);
    let basis_tri = basis.submatrix(0, 0, k, k);
    let basis_bot = basis.submatrix(k, 0, m - k, k);
    let mut mtop = matrix.submatrix(0, 0, k, n);
    let mut mbot = matrix.submatrix(k, 0, m - k, n);
    wy_update_top(
        &mut mtop,
        &basis_tri,
        &tmp1,
        parallelism,
        forward,
        Ghost(*matrix),
        Ghost(*basis),
        Ghost(*householder_factor),
    );
    wy_update_bot(
        &mut mbot,
        &basis_bot,
        &tmp1,
        parallelism,
        forward,
        Ghost(*matrix),
        Ghost(*basis),
        Ghost(*householder_factor),
    );
    matrix.paste(0, 0, &mtop);
    let ghost after_top = *matrix;
    matrix.paste(k, 0, &mbot);
    proof {
        assert forall|i: int, j: int| 0 <= i < m - k && 0 <= j < n
            implies #[trigger] matrix.sp_at(k + i, j) == mbot.sp_at(i, j) by {
            assert(matrix.sp_at(k as int + i, 0 + j) == mbot.sp_at(i, j));
        }
        assert forall|i: int, j: int| 0 <= i < k && 0 <= j < n implies #[trigger] matrix.sp_at(
            i,
            j,
        ) == mtop.sp_at(i, j) by {
            assert(after_top.sp_at(0 + i, 0 + j) == mtop.sp_at(i, j));
            assert(matrix.sp_at(i, j) == after_top.sp_at(i, j));
        }
        lemma_block_assembly(
            *old(matrix),
            *matrix,
            mtop,
            mbot,
            *basis,
            *householder_factor,
            forward,
            k as int,
            m as int,
            n as int,
        );
    }
    stack.give_back(tmp1);
}



} // verus!
