//! Elements of the BLS12-381 scalar field, held as four 64-bit limbs in
//! little-endian order, together with the modular-arithmetic model that the
//! circuit contracts are stated over.

use vstd::prelude::*;

use pairing::bls12_381::{Fr, FrRepr};
use pairing::{Field, PrimeField};

verus! {

/// The modulus of the BLS12-381 scalar field: a 255-bit prime.
pub open spec fn p() -> int {
    52435875175126190479447740508185965837690552500527637822603658699938581184513int
}

/// Addition in the field: the canonical residue of `a + b` modulo `p()`.
pub open spec fn fadd(a: int, b: int) -> int {
    (a + b) % p()
}

/// Multiplication in the field: the canonical residue of `a * b` modulo `p()`.
pub open spec fn fmul(a: int, b: int) -> int {
    (a * b) % p()
}

/// Additive inverse in the field: the canonical residue of `-a` modulo `p()`.
pub open spec fn fneg(a: int) -> int {
    (p() - a) % p()
}

/// A field element, stored as its canonical (fully reduced) representative
/// in four 64-bit limbs, least significant limb first.
#[derive(Clone, Copy, PartialEq, Eq, Structural, Debug)]
pub struct FieldElement {
    pub l0: u64,
    pub l1: u64,
    pub l2: u64,
    pub l3: u64,
}

impl FieldElement {
    /// The integer this element represents.
    pub open spec fn value(self) -> int {
        self.l0 + self.l1 * 0x10000000000000000int
            + self.l2 * 0x100000000000000000000000000000000int
            + self.l3 * 0x1000000000000000000000000000000000000000000000000int
    }

    /// Well-formedness: the stored representative is canonical.
    pub open spec fn inv(self) -> bool {
        0 <= self.value() < p()
    }

    /// The field element whose canonical representative is the small
    /// integer `n`.
    pub fn from_u64(n: u64) -> (r: FieldElement)
        ensures
            r.inv(),
            r.value() == n,
            r == fe_small(n),
    {
        FieldElement { l0: n, l1: 0, l2: 0, l3: 0 }
    }
}

/// The field element holding a 64-bit integer in its lowest limb.
pub open spec fn fe_small(n: u64) -> FieldElement {
    FieldElement { l0: n, l1: 0, l2: 0, l3: 0 }
}

/// Relies on pairing's `Fr` (BLS12-381 scalar field): `Field::add_assign`
/// adds two field elements modulo the field order; `PrimeField::from_repr`
/// and `PrimeField::into_repr` convert between canonical limbs and the
/// internal form.
#[verifier::external_body]
pub(crate) fn fr_add(x: &FieldElement, y: &FieldElement) -> (r: FieldElement)
    requires
        x.inv(),
        y.inv(),
    ensures
        r.inv(),
        r.value() == fadd(x.value(), y.value()),
{
    let mut a = Fr::from_repr(FrRepr([x.l0, x.l1, x.l2, x.l3])).unwrap();
    let b = Fr::from_repr(FrRepr([y.l0, y.l1, y.l2, y.l3])).unwrap();
    a.add_assign(&b);
    let l = a.into_repr().0;
    FieldElement { l0: l[0], l1: l[1], l2: l[2], l3: l[3] }
}

/// Relies on pairing's `Fr`: `Field::mul_assign` multiplies two field
/// elements modulo the field order.
#[verifier::external_body]
pub(crate) fn fr_mul(x: &FieldElement, y: &FieldElement) -> (r: FieldElement)
    requires
        x.inv(),
        y.inv(),
    ensures
        r.inv(),
        r.value() == fmul(x.value(), y.value()),
{
    let mut a = Fr::from_repr(FrRepr([x.l0, x.l1, x.l2, x.l3])).unwrap();
    let b = Fr::from_repr(FrRepr([y.l0, y.l1, y.l2, y.l3])).unwrap();
    a.mul_assign(&b);
    let l = a.into_repr().0;
    FieldElement { l0: l[0], l1: l[1], l2: l[2], l3: l[3] }
}

/// Relies on pairing's `Fr`: `Field::square` squares a field element modulo
/// the field order.
#[verifier::external_body]
pub(crate) fn fr_square(x: &FieldElement) -> (r: FieldElement)
    requires
        x.inv(),
    ensures
        r.inv(),
        r.value() == fmul(x.value(), x.value()),
{
    let mut a = Fr::from_repr(FrRepr([x.l0, x.l1, x.l2, x.l3])).unwrap();
    a.square();
    let l = a.into_repr().0;
    FieldElement { l0: l[0], l1: l[1], l2: l[2], l3: l[3] }
}

/// Relies on pairing's `Fr`: `Field::negate` replaces a field element by its
/// additive inverse modulo the field order.
#[verifier::external_body]
pub(crate) fn fr_neg(x: &FieldElement) -> (r: FieldElement)
    requires
        x.inv(),
    ensures
        r.inv(),
        r.value() == fneg(x.value()),
{
    let mut a = Fr::from_repr(FrRepr([x.l0, x.l1, x.l2, x.l3])).unwrap();
    a.negate();
    let l = a.into_repr().0;
    FieldElement { l0: l[0], l1: l[1], l2: l[2], l3: l[3] }
}

/// Multiplying a canonical value by one on the left leaves it unchanged.
pub proof fn lemma_fmul_one_left(a: int)
    requires
        0 <= a < p(),
    ensures
        fmul(1, a) == a,
{
    vstd::arithmetic::div_mod::lemma_small_mod(a as nat, p() as nat);
}

/// Multiplying a canonical value by one on the right leaves it unchanged.
pub proof fn lemma_fmul_one_right(a: int)
    requires
        0 <= a < p(),
    ensures
        fmul(a, 1) == a,
{
    vstd::arithmetic::div_mod::lemma_small_mod(a as nat, p() as nat);
}

/// Adding zero on the left leaves a canonical value unchanged.
pub proof fn lemma_fadd_zero_left(a: int)
    requires
        0 <= a < p(),
    ensures
        fadd(0, a) == a,
{
    vstd::arithmetic::div_mod::lemma_small_mod(a as nat, p() as nat);
}

/// Negating the canonical residue of a nonnegative integer gives the
/// canonical residue of its negation.
pub proof fn lemma_fneg_is_neg_mod(a: int)
    requires
        a >= 0,
    ensures
        fneg(a % p()) == (-a) % p(),
{
    let q = a / p();
    vstd::arithmetic::div_mod::lemma_fundamental_div_mod(a, p());
    assert(p() - a % p() == p() * (q + 1) + (-a));
    vstd::arithmetic::div_mod::lemma_mod_multiples_vanish(q + 1, -a, p());
}

} // verus!
