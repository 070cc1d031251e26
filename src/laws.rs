//! Algebraic laws of the field operations, stated over the values that the
//! element types view as: an integer in `[0, P)` for the base field
//! ([`crate::BabyBear`], [`crate::Elem`], [`crate::MontyBabyBear`], each lane
//! of [`crate::PackedBabyBear`]) and a quadruple of such integers for the
//! extension ([`crate::ExtElem`]).
use crate::field::{
    fadd, fmul, fneg, fpow, fsub, lemma_additive_inverse, lemma_fadd_associative,
    lemma_fmul_associative, lemma_fmul_commutative, lemma_fmul_distributive, P,
};
use crate::quartic::{
    canonical, embed, ext_add, ext_inv_with, ext_mul, ext_neg, ext_norm, ext_sub,
    lemma_ext_additive_inverse,
    lemma_ext_add_associative, lemma_ext_mul_associative, lemma_ext_mul_commutative,
    lemma_ext_mul_distributive, Quad,
};
use vstd::prelude::*;

verus! {

/// The base field operations are commutative and associative, and
/// multiplication distributes over addition.
pub proof fn law_base_field_axioms(a: int, b: int, c: int)
    requires
        0 <= a < P,
        0 <= b < P,
        0 <= c < P,
    ensures
        fadd(a, b) == fadd(b, a),
        fmul(a, b) == fmul(b, a),
        fadd(a, fadd(b, c)) == fadd(fadd(a, b), c),
        fmul(a, fmul(b, c)) == fmul(fmul(a, b), c),
        fmul(a, fadd(b, c)) == fadd(fmul(a, b), fmul(a, c)),
{
    lemma_fmul_commutative(a, b);
    lemma_fadd_associative(a, b, c);
    lemma_fmul_associative(a, b, c);
    lemma_fmul_distributive(a, b, c);
}

/// The extension field operations are commutative and associative, and
/// multiplication distributes over addition.
pub proof fn law_ext_field_axioms(a: Quad, b: Quad, c: Quad)
    requires
        canonical(a),
        canonical(b),
        canonical(c),
    ensures
        ext_add(a, b) == ext_add(b, a),
        ext_mul(a, b) == ext_mul(b, a),
        ext_add(a, ext_add(b, c)) == ext_add(ext_add(a, b), c),
        ext_mul(a, ext_mul(b, c)) == ext_mul(ext_mul(a, b), c),
        ext_mul(a, ext_add(b, c)) == ext_add(ext_mul(a, b), ext_mul(a, c)),
{
    lemma_ext_mul_commutative(a, b);
    lemma_ext_add_associative(a, b, c);
    lemma_ext_mul_associative(a, b, c);
    lemma_ext_mul_distributive(a, b, c);
}

/// `a + (-a) = 0`, `0 - a = -a`, and subtraction undoes addition:
/// `(a + b) - b = a`, in the base field.
pub proof fn law_base_additive_inverse(a: int, b: int)
    requires
        0 <= a < P,
        0 <= b < P,
    ensures
        fadd(a, fneg(a)) == 0,
        fsub(0, a) == fneg(a),
        fsub(fadd(a, b), b) == a,
{
    lemma_additive_inverse(a, b);
}

/// `a + (-a) = 0`, `0 - a = -a`, and subtraction undoes addition:
/// `(a + b) - b = a`, in the extension field.
pub proof fn law_ext_additive_inverse(a: Quad, b: Quad)
    requires
        canonical(a),
        canonical(b),
    ensures
        ext_add(a, ext_neg(a)) == embed(0),
        ext_sub(embed(0), a) == ext_neg(a),
        ext_sub(ext_add(a, b), b) == a,
{
    lemma_ext_additive_inverse(a, b);
}

/// Every nonzero element has `a^(P-2)` as its multiplicative inverse, the
/// value that `try_inverse` and `inv` return.
pub proof fn law_base_inverse(a: int)
    requires
        0 < a < P,
    ensures
        fmul(fpow(a, (P - 2) as nat), a) == 1,
{
    crate::fermat::lemma_inverse(a);
}

/// Every nonzero extension element has the inverse that `ExtElem::inv`
/// returns: its norm `b0^2 - 11 b2^2` is nonzero because `X^4 - 11` has no
/// nonzero element of norm zero.
pub proof fn law_ext_inverse(a: Quad)
    requires
        canonical(a),
        a != embed(0),
    ensures
        ext_norm(a) != 0,
        ext_mul(ext_inv_with(a, fpow(ext_norm(a), (P - 2) as nat)), a) == embed(1),
{
    if ext_norm(a) == 0 {
        crate::nonresidue::lemma_norm_zero(a);
    }
    crate::quartic::lemma_ext_inverse(a);
}

} // verus!
