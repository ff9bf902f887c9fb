//! The scalar field abstraction every kernel in this crate is generic over.
//!
//! A [`Field`] value supports addition, subtraction, multiplication, negation,
//! multiplicative inverse, a conjugate operation (the identity for real
//! fields), extraction of the real part, and a square root on the elements
//! that declare one. Each executable operation is pinned to a specification
//! counterpart, and the algebraic laws a field must obey are proof
//! obligations of every implementation, so generic lemmas may rely on them.

use vstd::prelude::*;

verus! {

/// Arithmetic contract of a scalar field with a conjugate operation.
///
/// The specification functions (`sp_*`) define the mathematical meaning of
/// each operation; the executable methods are required to compute exactly
/// those values. The `laws_*` proof obligations state the field axioms, so a
/// type can only implement this trait by proving that its operations form a
/// field. Domain restrictions (`inv` of the additive identity, `sqrt` outside
/// the declared domain) are preconditions: callers must avoid them.
pub trait Field: Sized + Copy {
    /// Meaning of the additive identity.
    spec fn sp_zero() -> Self;

    /// Meaning of the multiplicative identity.
    spec fn sp_one() -> Self;

    /// Meaning of addition.
    spec fn sp_add(self, rhs: Self) -> Self;

    /// Meaning of subtraction.
    spec fn sp_sub(self, rhs: Self) -> Self;

    /// Meaning of multiplication.
    spec fn sp_mul(self, rhs: Self) -> Self;

    /// Meaning of negation.
    spec fn sp_neg(self) -> Self;

    /// Meaning of the multiplicative inverse (unconstrained on the additive
    /// identity, which `inv` refuses).
    spec fn sp_inv(self) -> Self;

    /// Meaning of conjugation (the identity map for real fields).
    spec fn sp_conj(self) -> Self;

    /// Meaning of real-part extraction.
    spec fn sp_re(self) -> Self;

    /// Meaning of the square root on elements where `sp_has_sqrt` holds.
    spec fn sp_sqrt(self) -> Self;

    /// The domain on which a square root is available.
    spec fn sp_has_sqrt(self) -> bool;

    fn zero() -> (r: Self)
        ensures
            r == Self::sp_zero(),
    ;

    fn one() -> (r: Self)
        ensures
            r == Self::sp_one(),
    ;

    fn add(self, rhs: Self) -> (r: Self)
        ensures
            r == self.sp_add(rhs),
    ;

    fn sub(self, rhs: Self) -> (r: Self)
        ensures
            r == self.sp_sub(rhs),
    ;

    fn mul(self, rhs: Self) -> (r: Self)
        ensures
            r == self.sp_mul(rhs),
    ;

    fn neg(self) -> (r: Self)
        ensures
            r == self.sp_neg(),
    ;

    fn inv(self) -> (r: Self)
        requires
            self != Self::sp_zero(),
        ensures
            r == self.sp_inv(),
    ;

    fn conj(self) -> (r: Self)
        ensures
            r == self.sp_conj(),
    ;

    fn re(self) -> (r: Self)
        ensures
            r == self.sp_re(),
    ;

    fn sqrt(self) -> (r: Self)
        requires
            self.sp_has_sqrt(),
        ensures
            r == self.sp_sqrt(),
    ;

    /// Additive laws: commutativity, associativity, identity, inverses, and
    /// the definition of subtraction and of double negation.
    proof fn laws_add()
        ensures
            forall|a: Self, b: Self| #[trigger] a.sp_add(b) == b.sp_add(a),
            forall|a: Self, b: Self, c: Self|
                #[trigger] a.sp_add(b).sp_add(c) == a.sp_add(b.sp_add(c)),
            forall|a: Self| #[trigger] a.sp_add(Self::sp_zero()) == a,
            forall|a: Self| #[trigger] a.sp_add(a.sp_neg()) == Self::sp_zero(),
            forall|a: Self, b: Self| #[trigger] a.sp_sub(b) == a.sp_add(b.sp_neg()),
            forall|a: Self| #[trigger] a.sp_neg().sp_neg() == a,
    ;

    /// Multiplicative laws: commutativity, associativity, identity,
    /// annihilation by the additive identity, distributivity, and how
    /// negation commutes with multiplication.
    proof fn laws_mul()
        ensures
            forall|a: Self, b: Self| #[trigger] a.sp_mul(b) == b.sp_mul(a),
            forall|a: Self, b: Self, c: Self|
                #[trigger] a.sp_mul(b).sp_mul(c) == a.sp_mul(b.sp_mul(c)),
            forall|a: Self| #[trigger] a.sp_mul(Self::sp_one()) == a,
            forall|a: Self| #[trigger] a.sp_mul(Self::sp_zero()) == Self::sp_zero(),
            forall|a: Self, b: Self, c: Self|
                #[trigger] a.sp_mul(b.sp_add(c)) == a.sp_mul(b).sp_add(a.sp_mul(c)),
            forall|a: Self, b: Self| #[trigger] a.sp_neg().sp_mul(b) == a.sp_mul(b).sp_neg(),
    ;

    /// Conjugation laws: it is an additive and multiplicative homomorphism,
    /// an involution, and it fixes both identities.
    proof fn laws_conj()
        ensures
            forall|a: Self, b: Self|
                #[trigger] a.sp_add(b).sp_conj() == a.sp_conj().sp_add(b.sp_conj()),
            forall|a: Self, b: Self|
                #[trigger] a.sp_mul(b).sp_conj() == a.sp_conj().sp_mul(b.sp_conj()),
            forall|a: Self| #[trigger] a.sp_conj().sp_conj() == a,
            Self::sp_zero().sp_conj() == Self::sp_zero(),
            Self::sp_one().sp_conj() == Self::sp_one(),
    ;

    /// A nonzero element multiplied by its inverse gives the multiplicative
    /// identity.
    proof fn law_inv(a: Self)
        requires
            a != Self::sp_zero(),
        ensures
            a.sp_mul(a.sp_inv()) == Self::sp_one(),
    ;

    /// On its declared domain, the square root squares back to its argument.
    proof fn law_sqrt(a: Self)
        requires
            a.sp_has_sqrt(),
        ensures
            a.sp_sqrt().sp_mul(a.sp_sqrt()) == a,
    ;

    /// Real-part extraction fixes the elements that conjugation fixes.
    proof fn law_re(a: Self)
        requires
            a.sp_conj() == a,
        ensures
            a.sp_re() == a,
    ;

    /// The field is not trivial.
    proof fn law_one_nonzero()
        ensures
            Self::sp_one() != Self::sp_zero(),
    ;
}

/// Sum of `f(lo) + f(lo + 1) + ... + f(hi - 1)`, folded from the left, with
/// the empty sum equal to the additive identity.
pub open spec fn sum_range<T: Field>(lo: int, hi: int, f: spec_fn(int) -> T) -> T
    decreases hi - lo,
{
    if lo >= hi {
        T::sp_zero()
    } else {
        sum_range(lo, hi - 1, f).sp_add(f(hi - 1))
    }
}

/// Sums of pointwise-equal summands are equal.
pub proof fn lemma_sum_congruence<T: Field>(lo: int, hi: int, f: spec_fn(int) -> T, g: spec_fn(int) -> T)
    requires
        forall|l: int| lo <= l < hi ==> #[trigger] f(l) == g(l),
    ensures
        sum_range(lo, hi, f) == sum_range(lo, hi, g),
    decreases hi - lo,
{
    if lo < hi {
        lemma_sum_congruence(lo, hi - 1, f, g);
    }
}

/// A sum whose summands are all the additive identity is the additive
/// identity.
pub proof fn lemma_sum_all_zero<T: Field>(lo: int, hi: int, f: spec_fn(int) -> T)
    requires
        forall|l: int| lo <= l < hi ==> #[trigger] f(l) == T::sp_zero(),
    ensures
        sum_range(lo, hi, f) == T::sp_zero(),
    decreases hi - lo,
{
    T::laws_add();
    if lo < hi {
        lemma_sum_all_zero(lo, hi - 1, f);
    }
}

/// Summands equal to the additive identity at the top of the range can be
/// dropped.
pub proof fn lemma_sum_zero_tail<T: Field>(lo: int, mid: int, hi: int, f: spec_fn(int) -> T)
    requires
        lo <= mid <= hi,
        forall|l: int| mid <= l < hi ==> #[trigger] f(l) == T::sp_zero(),
    ensures
        sum_range(lo, hi, f) == sum_range(lo, mid, f),
    decreases hi - mid,
{
    T::laws_add();
    if mid < hi {
        lemma_sum_zero_tail(lo, mid, hi - 1, f);
    }
}

/// Summands equal to the additive identity at the bottom of the range can be
/// dropped.
pub proof fn lemma_sum_zero_head<T: Field>(lo: int, mid: int, hi: int, f: spec_fn(int) -> T)
    requires
        lo <= mid,
        forall|l: int| lo <= l < mid ==> #[trigger] f(l) == T::sp_zero(),
    ensures
        sum_range(lo, hi, f) == sum_range(mid, hi, f),
    decreases hi - lo,
{
    T::laws_add();
    if hi <= mid {
        lemma_sum_all_zero(lo, hi, f);
    } else {
        lemma_sum_zero_head(lo, mid, hi - 1, f);
    }
}

/// Together: a sum over a full range equals the sum over a sub-range outside
/// of which every summand is the additive identity.
pub proof fn lemma_sum_zero_outside<T: Field>(lo: int, mid_lo: int, mid_hi: int, hi: int, f: spec_fn(int) -> T)
    requires
        lo <= mid_lo <= mid_hi <= hi,
        forall|l: int| lo <= l < mid_lo ==> #[trigger] f(l) == T::sp_zero(),
        forall|l: int| mid_hi <= l < hi ==> #[trigger] f(l) == T::sp_zero(),
    ensures
        sum_range(lo, hi, f) == sum_range(mid_lo, mid_hi, f),
{
    lemma_sum_zero_tail(lo, mid_hi, hi, f);
    lemma_sum_zero_head(lo, mid_lo, mid_hi, f);
}

/// A constant left factor distributes out of a sum.
pub proof fn lemma_sum_mul_left<T: Field>(lo: int, hi: int, f: spec_fn(int) -> T, g: spec_fn(int) -> T, c: T)
    requires
        forall|l: int| lo <= l < hi ==> #[trigger] f(l) == c.sp_mul(g(l)),
    ensures
        sum_range(lo, hi, f) == c.sp_mul(sum_range(lo, hi, g)),
    decreases hi - lo,
{
    T::laws_add();
    T::laws_mul();
    if lo >= hi {
        assert(c.sp_mul(T::sp_zero()) == T::sp_zero());
    } else {
        lemma_sum_mul_left(lo, hi - 1, f, g, c);
    }
}

} // verus!
