// Scenario tests for the Householder kernels over the exact field Gf7.
// The end-to-end values embed the classic real example: a column with
// head 3 and tail [4, 0] (squared norm 16) has norm 5, so beta = -5 and,
// modulo 7, the computed reflector maps the column to [beta, 0, 0].

use faer_core::field::Field;
use faer_core::gf7::Gf7;
use faer_core::householder::apply_block_househodler_on_the_left;
use faer_core::householder::apply_househodler_on_the_left;
use faer_core::householder::make_householder_in_place_unchecked;
use faer_core::mat::Mat;
use faer_core::mul::matmul;
use faer_core::mul::triangular_matmul;
use faer_core::mul::BlockStructure;
use faer_core::mul::MatrixOp;
use faer_core::mul::Parallelism;
use faer_core::workspace::Workspace;

fn g(v: u8) -> Gf7 {
    Gf7::of_u8(v)
}

fn mat_from(rows: &[&[u8]]) -> Mat<Gf7> {
    let mut m: Mat<Gf7> = Mat::zeros(rows.len(), rows[0].len());
    for (i, row) in rows.iter().enumerate() {
        for (j, &v) in row.iter().enumerate() {
            m.set(i, j, g(v));
        }
    }
    m
}

#[test]
fn end_to_end_reflector_scenario() {
    // head = 3, tail = [4, 0], tail_squared_norm = 16 = 2 (mod 7).
    let mut essential = vec![g(4), g(0)];
    let (tau, beta) = make_householder_in_place_unchecked(&mut essential, g(3), g(2));
    // Exact expected values mod 7: sign = 1, norm = 2, inv = 1/(3+2) = 3,
    // tau = 2 / (1 + 2 * 9) = 2/5 = 6, beta = -2 = 5, essential = [4*3, 0] = [5, 0].
    assert_eq!(tau, g(6));
    assert_eq!(beta, g(5));
    assert_eq!(essential, vec![g(5), g(0)]);

    // Applying the reflector to the original column yields [beta, 0, 0].
    let mut col = mat_from(&[&[3], &[4], &[0]]);
    let mut stack: Workspace<Gf7> = Workspace::with_capacity(4);
    apply_househodler_on_the_left(&mut col, &essential, tau, &mut stack);
    assert_eq!(col.get(0, 0), beta);
    assert_eq!(col.get(1, 0), g(0));
    assert_eq!(col.get(2, 0), g(0));
}

#[test]
fn norm_preservation() {
    // |beta|^2 == |head|^2 + tail_squared_norm for the tested inputs.
    for (h, t) in [(3u8, 2u8), (1, 0), (2, 4), (5, 1)] {
        let hh = g(h).mul(g(h).conj()).re();
        let norm_sq = hh.add(g(t));
        // Skip inputs outside the construction's domain.
        if ![0u8, 1, 2, 4].contains(&norm_sq.val_u8()) || ![0u8, 1, 2, 4].contains(&hh.val_u8()) {
            continue;
        }
        if hh.val_u8() == 0 {
            continue;
        }
        let mut essential: Vec<Gf7> = vec![];
        let (_tau, beta) = make_householder_in_place_unchecked(&mut essential, g(h), g(t));
        assert_eq!(beta.mul(beta.conj()), norm_sq);
    }
}

#[test]
fn single_row_scales_by_one_minus_tau() {
    let mut row = mat_from(&[&[1, 2, 3]]);
    let essential: Vec<Gf7> = vec![];
    let tau = g(6);
    let mut stack: Workspace<Gf7> = Workspace::with_capacity(4);
    apply_househodler_on_the_left(&mut row, &essential, tau, &mut stack);
    // 1 - tau = 1 - 6 = 2 (mod 7).
    assert_eq!(row.get(0, 0), g(2));
    assert_eq!(row.get(0, 1), g(4));
    assert_eq!(row.get(0, 2), g(6));
}

#[test]
fn triangular_tags_skip_entries_outside_pattern() {
    // An upper-triangular tagged operand with garbage below the diagonal
    // multiplies exactly like the clean version.
    let clean = mat_from(&[&[1, 2], &[0, 3]]);
    let dirty = mat_from(&[&[1, 2], &[6, 3]]);
    let rhs = mat_from(&[&[4, 5], &[1, 2]]);
    let mut out1: Mat<Gf7> = Mat::zeros(2, 2);
    let mut out2: Mat<Gf7> = Mat::zeros(2, 2);
    triangular_matmul(
        &mut out1,
        &clean,
        BlockStructure::TriangularUpper,
        MatrixOp::Identity,
        &rhs,
        BlockStructure::Rectangular,
        MatrixOp::Identity,
        g(1),
        None,
        Parallelism::Sequential,
    );
    triangular_matmul(
        &mut out2,
        &dirty,
        BlockStructure::TriangularUpper,
        MatrixOp::Identity,
        &rhs,
        BlockStructure::Rectangular,
        MatrixOp::Identity,
        g(1),
        None,
        Parallelism::Sequential,
    );
    for i in 0..2 {
        for j in 0..2 {
            assert_eq!(out1.get(i, j), out2.get(i, j));
        }
    }
    // Exact expected values: [[1*4+2*1, 1*5+2*2], [3*1, 3*2]] mod 7.
    assert_eq!(out1.get(0, 0), g(6));
    assert_eq!(out1.get(0, 1), g(2));
    assert_eq!(out1.get(1, 0), g(3));
    assert_eq!(out1.get(1, 1), g(6));
}

#[test]
fn parallelism_setting_does_not_change_results() {
    let lhs = mat_from(&[&[1, 2], &[3, 4]]);
    let rhs = mat_from(&[&[5, 6], &[0, 2]]);
    let mut base: Mat<Gf7> = Mat::zeros(2, 2);
    matmul(
        &mut base,
        &lhs,
        MatrixOp::Identity,
        &rhs,
        MatrixOp::Identity,
        g(1),
        None,
        Parallelism::Sequential,
    );
    for workers in [2usize, 4, 8] {
        let mut out: Mat<Gf7> = Mat::zeros(2, 2);
        matmul(
            &mut out,
            &lhs,
            MatrixOp::Identity,
            &rhs,
            MatrixOp::Identity,
            g(1),
            None,
            Parallelism::Workers(workers),
        );
        for i in 0..2 {
            for j in 0..2 {
                assert_eq!(base.get(i, j), out.get(i, j));
            }
        }
    }
}

#[test]
fn workspace_capacity_is_restored() {
    let mut stack: Workspace<Gf7> = Workspace::with_capacity(6);
    let m = stack.take_mat(2, 3);
    stack.give_back(m);
    let m2 = stack.take_mat(3, 2);
    stack.give_back(m2);
}

#[test]
fn single_vs_block_equivalence_k1() {
    // One reflector applied as a k = 1 compact-WY block must match the
    // single application. The basis diagonal entry is junk: it is never read.
    let essential = vec![g(5), g(0)];
    let tau = g(6);
    let mut single = mat_from(&[&[3, 1], &[4, 2], &[0, 6]]);
    let mut stack: Workspace<Gf7> = Workspace::with_capacity(8);
    apply_househodler_on_the_left(&mut single, &essential, tau, &mut stack);

    let mut block = mat_from(&[&[3, 1], &[4, 2], &[0, 6]]);
    let basis = mat_from(&[&[3], &[5], &[0]]);
    let factor = mat_from(&[&[6]]);
    apply_block_househodler_on_the_left(
        &mut block,
        &basis,
        &factor,
        true,
        Parallelism::Sequential,
        &mut stack,
    );
    for i in 0..3 {
        for j in 0..2 {
            assert_eq!(single.get(i, j), block.get(i, j));
        }
    }
}

#[test]
fn block_parallelism_invariance() {
    // The block application returns the same matrix whatever the
    // parallelism setting.
    let basis = mat_from(&[&[1, 0], &[5, 1], &[2, 3]]);
    let factor = mat_from(&[&[6, 2], &[0, 4]]);
    let mut reference = mat_from(&[&[3, 1], &[4, 2], &[0, 6]]);
    let mut stack: Workspace<Gf7> = Workspace::with_capacity(16);
    apply_block_househodler_on_the_left(
        &mut reference,
        &basis,
        &factor,
        false,
        Parallelism::Sequential,
        &mut stack,
    );
    for workers in [2usize, 4, 8] {
        let mut other = mat_from(&[&[3, 1], &[4, 2], &[0, 6]]);
        apply_block_househodler_on_the_left(
            &mut other,
            &basis,
            &factor,
            false,
            Parallelism::Workers(workers),
            &mut stack,
        );
        for i in 0..3 {
            for j in 0..2 {
                assert_eq!(reference.get(i, j), other.get(i, j));
            }
        }
    }
}
