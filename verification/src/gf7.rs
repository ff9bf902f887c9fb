//! An exact scalar type grounding the [`crate::field::Field`] contract.
//!
//! `Gf7` is the prime field with seven elements. Its arithmetic is exact, so
//! every field law is proved rather than approximated, and it gives the
//! generic kernels of this crate a concrete, executable instantiation with
//! conjugation equal to the identity (a real field).

use vstd::arithmetic::div_mod::lemma_add_mod_noop;
use vstd::arithmetic::div_mod::lemma_mul_mod_noop_left;
use vstd::arithmetic::div_mod::lemma_mul_mod_noop_right;
use vstd::arithmetic::div_mod::lemma_sub_mod_noop;
use vstd::arithmetic::mul::lemma_mul_is_associative;
use vstd::arithmetic::mul::lemma_mul_is_distributive_add;
use vstd::arithmetic::mul::lemma_mul_unary_negation;
use vstd::prelude::*;

use crate::field::Field;

verus! {

/// An element of the field of integers modulo seven, named by its residue.
#[derive(Clone, Copy, Debug, PartialEq, Eq, Structural)]
pub enum Gf7 {
    N0,
    N1,
    N2,
    N3,
    N4,
    N5,
    N6,
}

impl Gf7 {
    /// The residue an element stands for.
    pub open spec fn sp_val(self) -> int {
        match self {
            Gf7::N0 => 0,
            Gf7::N1 => 1,
            Gf7::N2 => 2,
            Gf7::N3 => 3,
            Gf7::N4 => 4,
            Gf7::N5 => 5,
            Gf7::N6 => 6,
        }
    }

    /// The element standing for a residue in `[0, 7)`.
    pub open spec fn sp_of(v: int) -> Gf7 {
        if v == 0 {
            Gf7::N0
        } else if v == 1 {
            Gf7::N1
        } else if v == 2 {
            Gf7::N2
        } else if v == 3 {
            Gf7::N3
        } else if v == 4 {
            Gf7::N4
        } else if v == 5 {
            Gf7::N5
        } else {
            Gf7::N6
        }
    }

    /// The residue as an executable byte.
    pub fn val_u8(self) -> (r: u8)
        ensures
            r as int == self.sp_val(),
    {
        match self {
            Gf7::N0 => 0,
            Gf7::N1 => 1,
            Gf7::N2 => 2,
            Gf7::N3 => 3,
            Gf7::N4 => 4,
            Gf7::N5 => 5,
            Gf7::N6 => 6,
        }
    }

    /// The element with a given residue.
    pub fn of_u8(v: u8) -> (r: Gf7)
        requires
            v < 7,
        ensures
            r == Gf7::sp_of(v as int),
    {
        match v {
            0 => Gf7::N0,
            1 => Gf7::N1,
            2 => Gf7::N2,
            3 => Gf7::N3,
            4 => Gf7::N4,
            5 => Gf7::N5,
            _ => Gf7::N6,
        }
    }
}

/// Residues of elements lie in `[0, 7)` and naming an element by its residue
/// is the identity.
proof fn lemma_gf7_val(a: Gf7)
    ensures
        0 <= a.sp_val() < 7,
        Gf7::sp_of(a.sp_val()) == a,
{
}

/// Residues in `[0, 7)` round-trip through `sp_of`.
proof fn lemma_gf7_of_val(v: int)
    requires
        0 <= v < 7,
    ensures
        Gf7::sp_of(v).sp_val() == v,
{
}

impl Field for Gf7 {
    open spec fn sp_zero() -> Gf7 {
        Gf7::N0
    }

    open spec fn sp_one() -> Gf7 {
        Gf7::N1
    }

    open spec fn sp_add(self, rhs: Gf7) -> Gf7 {
        Gf7::sp_of((self.sp_val() + rhs.sp_val()) % 7)
    }

    open spec fn sp_sub(self, rhs: Gf7) -> Gf7 {
        self.sp_add(rhs.sp_neg())
    }

    open spec fn sp_mul(self, rhs: Gf7) -> Gf7 {
        Gf7::sp_of((self.sp_val() * rhs.sp_val()) % 7)
    }

    open spec fn sp_neg(self) -> Gf7 {
        Gf7::sp_of((0 - self.sp_val()) % 7)
    }

    open spec fn sp_inv(self) -> Gf7 {
        match self {
            Gf7::N0 => Gf7::N0,
            Gf7::N1 => Gf7::N1,
            Gf7::N2 => Gf7::N4,
            Gf7::N3 => Gf7::N5,
            Gf7::N4 => Gf7::N2,
            Gf7::N5 => Gf7::N3,
            Gf7::N6 => Gf7::N6,
        }
    }

    open spec fn sp_conj(self) -> Gf7 {
        self
    }

    open spec fn sp_re(self) -> Gf7 {
        self
    }

    open spec fn sp_sqrt(self) -> Gf7 {
        match self {
            Gf7::N0 => Gf7::N0,
            Gf7::N1 => Gf7::N1,
            Gf7::N2 => Gf7::N3,
            Gf7::N4 => Gf7::N2,
            _ => Gf7::N0,
        }
    }

    open spec fn sp_has_sqrt(self) -> bool {
        match self {
            Gf7::N0 => true,
            Gf7::N1 => true,
            Gf7::N2 => true,
            Gf7::N4 => true,
            _ => false,
        }
    }

    fn zero() -> (r: Gf7) {
        Gf7::N0
    }

    fn one() -> (r: Gf7) {
        Gf7::N1
    }

    fn add(self, rhs: Gf7) -> (r: Gf7) {
        Gf7::of_u8((self.val_u8() + rhs.val_u8()) % 7)
    }

    fn sub(self, rhs: Gf7) -> (r: Gf7) {
        self.add(rhs.neg())
    }

    fn mul(self, rhs: Gf7) -> (r: Gf7) {
        Gf7::of_u8((self.val_u8() * rhs.val_u8()) % 7)
    }

    fn neg(self) -> (r: Gf7) {
        let v = self.val_u8();
        let r = Gf7::of_u8((7 - v) % 7);
        proof {
            assert((7 - self.sp_val()) % 7 == (0 - self.sp_val()) % 7) by {
                lemma_add_mod_noop(7, 0 - self.sp_val(), 7);
                lemma_gf7_val(self);
            }
        }
        r
    }

    fn inv(self) -> (r: Gf7) {
        match self {
            Gf7::N0 => Gf7::N0,
            Gf7::N1 => Gf7::N1,
            Gf7::N2 => Gf7::N4,
            Gf7::N3 => Gf7::N5,
            Gf7::N4 => Gf7::N2,
            Gf7::N5 => Gf7::N3,
            Gf7::N6 => Gf7::N6,
        }
    }

    fn conj(self) -> (r: Gf7) {
        self
    }

    fn re(self) -> (r: Gf7) {
        self
    }

    fn sqrt(self) -> (r: Gf7) {
        match self {
            Gf7::N0 => Gf7::N0,
            Gf7::N1 => Gf7::N1,
            Gf7::N2 => Gf7::N3,
            _ => Gf7::N2,
        }
    }

    proof fn laws_add() {
        assert forall|a: Gf7, b: Gf7| #[trigger] a.sp_add(b) == b.sp_add(a) by {
            lemma_gf7_add_comm(a, b);
        }
        assert forall|a: Gf7, b: Gf7, c: Gf7|
            #[trigger] a.sp_add(b).sp_add(c) == a.sp_add(b.sp_add(c)) by {
            lemma_gf7_add_assoc(a, b, c);
        }
        assert forall|a: Gf7| #[trigger] a.sp_add(Gf7::sp_zero()) == a by {
            lemma_gf7_add_zero(a);
        }
        assert forall|a: Gf7| #[trigger] a.sp_add(a.sp_neg()) == Gf7::sp_zero() by {
            lemma_gf7_add_neg(a);
        }
        assert forall|a: Gf7, b: Gf7| #[trigger] a.sp_sub(b) == a.sp_add(b.sp_neg()) by {
        }
        assert forall|a: Gf7| #[trigger] a.sp_neg().sp_neg() == a by {
            lemma_gf7_neg_neg(a);
        }
    }

    proof fn laws_mul() {
        assert forall|a: Gf7, b: Gf7| #[trigger] a.sp_mul(b) == b.sp_mul(a) by {
            lemma_gf7_mul_comm(a, b);
        }
        assert forall|a: Gf7, b: Gf7, c: Gf7|
            #[trigger] a.sp_mul(b).sp_mul(c) == a.sp_mul(b.sp_mul(c)) by {
            lemma_gf7_mul_assoc(a, b, c);
        }
        assert forall|a: Gf7| #[trigger] a.sp_mul(Gf7::sp_one()) == a by {
            lemma_gf7_mul_one(a);
        }
        assert forall|a: Gf7| #[trigger] a.sp_mul(Gf7::sp_zero()) == Gf7::sp_zero() by {
            lemma_gf7_mul_zero(a);
        }
        assert forall|a: Gf7, b: Gf7, c: Gf7|
            #[trigger] a.sp_mul(b.sp_add(c)) == a.sp_mul(b).sp_add(a.sp_mul(c)) by {
            lemma_gf7_distrib(a, b, c);
        }
        assert forall|a: Gf7, b: Gf7| #[trigger] a.sp_neg().sp_mul(b) == a.sp_mul(b).sp_neg() by {
            lemma_gf7_neg_mul(a, b);
        }
    }

    proof fn laws_conj() {
    }

    proof fn law_inv(a: Gf7) {
        lemma_gf7_val(a);
    }

    proof fn law_sqrt(a: Gf7) {
        assert(a == Gf7::N0 || a == Gf7::N1 || a == Gf7::N2 || a == Gf7::N4);
        assert(Gf7::N3.sp_mul(Gf7::N3) == Gf7::N2);
        assert(Gf7::N2.sp_mul(Gf7::N2) == Gf7::N4);
    }

    proof fn law_re(a: Gf7) {
    }

    proof fn law_one_nonzero() {
    }
}


proof fn lemma_gf7_add_comm(a: Gf7, b: Gf7)
    ensures
        a.sp_add(b) == b.sp_add(a),
{
    lemma_gf7_val(a);
    lemma_gf7_val(b);
}

proof fn lemma_gf7_add_assoc(a: Gf7, b: Gf7, c: Gf7)
    ensures
        a.sp_add(b).sp_add(c) == a.sp_add(b.sp_add(c)),
{
    lemma_gf7_val(a);
    lemma_gf7_val(b);
    lemma_gf7_val(c);
    let va = a.sp_val();
    let vb = b.sp_val();
    let vc = c.sp_val();
    lemma_gf7_of_val((va + vb) % 7);
    lemma_gf7_of_val((vb + vc) % 7);
    lemma_add_mod_noop(va + vb, vc, 7);
    lemma_add_mod_noop(va, vb + vc, 7);
    assert(vc % 7 == vc);
    assert(va % 7 == va);
}

proof fn lemma_gf7_add_zero(a: Gf7)
    ensures
        a.sp_add(Gf7::sp_zero()) == a,
{
    lemma_gf7_val(a);
}

proof fn lemma_gf7_add_neg(a: Gf7)
    ensures
        a.sp_add(a.sp_neg()) == Gf7::sp_zero(),
{
    lemma_gf7_val(a);
    let va = a.sp_val();
    lemma_gf7_of_val((0 - va) % 7);
    lemma_add_mod_noop(va, 0 - va, 7);
    assert(va % 7 == va);
}

proof fn lemma_gf7_neg_neg(a: Gf7)
    ensures
        a.sp_neg().sp_neg() == a,
{
    lemma_gf7_val(a);
    let va = a.sp_val();
    lemma_gf7_of_val((0 - va) % 7);
}

proof fn lemma_gf7_mul_comm(a: Gf7, b: Gf7)
    ensures
        a.sp_mul(b) == b.sp_mul(a),
{
    lemma_gf7_val(a);
    lemma_gf7_val(b);
}

proof fn lemma_gf7_mul_assoc(a: Gf7, b: Gf7, c: Gf7)
    ensures
        a.sp_mul(b).sp_mul(c) == a.sp_mul(b.sp_mul(c)),
{
    lemma_gf7_val(a);
    lemma_gf7_val(b);
    lemma_gf7_val(c);
    let va = a.sp_val();
    let vb = b.sp_val();
    let vc = c.sp_val();
    lemma_gf7_of_val((va * vb) % 7);
    lemma_gf7_of_val((vb * vc) % 7);
    lemma_mul_mod_noop_left(va * vb, vc, 7);
    lemma_mul_mod_noop_right(va, vb * vc, 7);
    lemma_mul_is_associative(va, vb, vc);
}

proof fn lemma_gf7_mul_one(a: Gf7)
    ensures
        a.sp_mul(Gf7::sp_one()) == a,
{
    lemma_gf7_val(a);
}

proof fn lemma_gf7_mul_zero(a: Gf7)
    ensures
        a.sp_mul(Gf7::sp_zero()) == Gf7::sp_zero(),
{
    lemma_gf7_val(a);
}

proof fn lemma_gf7_distrib(a: Gf7, b: Gf7, c: Gf7)
    ensures
        a.sp_mul(b.sp_add(c)) == a.sp_mul(b).sp_add(a.sp_mul(c)),
{
    lemma_gf7_val(a);
    lemma_gf7_val(b);
    lemma_gf7_val(c);
    let va = a.sp_val();
    let vb = b.sp_val();
    let vc = c.sp_val();
    lemma_gf7_of_val((vb + vc) % 7);
    lemma_gf7_of_val((va * vb) % 7);
    lemma_gf7_of_val((va * vc) % 7);
    lemma_mul_mod_noop_right(va, vb + vc, 7);
    lemma_mul_is_distributive_add(va, vb, vc);
    lemma_add_mod_noop(va * vb, va * vc, 7);
    assert(va % 7 == va);
}

proof fn lemma_gf7_neg_mul(a: Gf7, b: Gf7)
    ensures
        a.sp_neg().sp_mul(b) == a.sp_mul(b).sp_neg(),
{
    lemma_gf7_val(a);
    lemma_gf7_val(b);
    let va = a.sp_val();
    let vb = b.sp_val();
    lemma_gf7_of_val((0 - va) % 7);
    lemma_gf7_of_val((va * vb) % 7);
    lemma_mul_mod_noop_left(0 - va, vb, 7);
    lemma_mul_unary_negation(va, vb);
    lemma_sub_mod_noop(0, va * vb, 7);
    assert(vb % 7 == vb);
}
} // verus!
