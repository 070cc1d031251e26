//! The degree-four extension `F_p[X] / (X^4 - 11)`, stated over quadruples
//! of integers `(c0, c1, c2, c3)` that stand for `c0 + c1 X + c2 X^2 + c3 X^3`.
use crate::field::{fadd, fmul, fneg, fsub, lemma_fadd_noop, lemma_fmul_noop, lemma_modp_bound,
    lemma_modp_small, modp, P};
use vstd::arithmetic::div_mod::{lemma_add_mod_noop, lemma_mul_mod_noop_left, lemma_mod_twice};
use vstd::prelude::*;

verus! {

/// The constant `beta` of the modulus `X^4 - beta`.
pub const BETA: u32 = 11;

/// The coefficients of an extension element, lowest degree first.
pub type Quad = (int, int, int, int);

/// Every coefficient is a canonical representative.
pub open spec fn canonical(a: Quad) -> bool {
    &&& 0 <= a.0 < P
    &&& 0 <= a.1 < P
    &&& 0 <= a.2 < P
    &&& 0 <= a.3 < P
}

/// Reduces each coefficient modulo `P`.
pub open spec fn reduce(a: Quad) -> Quad {
    (modp(a.0), modp(a.1), modp(a.2), modp(a.3))
}

/// The product of two polynomials with `X^4` replaced by `beta`, over the integers.
pub open spec fn mul_raw(a: Quad, b: Quad) -> Quad {
    (
        a.0 * b.0 + 11 * (a.1 * b.3 + a.2 * b.2 + a.3 * b.1),
        a.0 * b.1 + a.1 * b.0 + 11 * (a.2 * b.3 + a.3 * b.2),
        a.0 * b.2 + a.1 * b.1 + a.2 * b.0 + 11 * (a.3 * b.3),
        a.0 * b.3 + a.1 * b.2 + a.2 * b.1 + a.3 * b.0,
    )
}

/// Extension multiplication.
pub open spec fn ext_mul(a: Quad, b: Quad) -> Quad {
    reduce(mul_raw(a, b))
}

/// Extension addition, coefficient by coefficient.
pub open spec fn ext_add(a: Quad, b: Quad) -> Quad {
    (fadd(a.0, b.0), fadd(a.1, b.1), fadd(a.2, b.2), fadd(a.3, b.3))
}

/// Extension subtraction, coefficient by coefficient.
pub open spec fn ext_sub(a: Quad, b: Quad) -> Quad {
    (fsub(a.0, b.0), fsub(a.1, b.1), fsub(a.2, b.2), fsub(a.3, b.3))
}

/// The additive inverse.
pub open spec fn ext_neg(a: Quad) -> Quad {
    (fneg(a.0), fneg(a.1), fneg(a.2), fneg(a.3))
}

/// Multiplication by an element of the base field.
pub open spec fn ext_scale(a: Quad, s: int) -> Quad {
    (fmul(a.0, s), fmul(a.1, s), fmul(a.2, s), fmul(a.3, s))
}

/// The base field element `x`, embedded.
pub open spec fn embed(x: int) -> Quad {
    (x, 0, 0, 0)
}

/// `a^n`, by repeated multiplication.
pub open spec fn ext_pow(a: Quad, n: nat) -> Quad
    decreases n,
{
    if n == 0 {
        embed(1)
    } else {
        ext_mul(a, ext_pow(a, (n - 1) as nat))
    }
}

/// `Σ x_i * y_i mod P` does not change when each `x_i` is reduced first.
proof fn lemma_sum4_noop(x0: int, x1: int, x2: int, x3: int, y0: int, y1: int, y2: int, y3: int)
    ensures
        modp(modp(x0) * y0 + modp(x1) * y1 + modp(x2) * y2 + modp(x3) * y3) == modp(
            x0 * y0 + x1 * y1 + x2 * y2 + x3 * y3,
        ),
{
    let p = P as int;
    lemma_mul_mod_noop_left(x0, y0, p);
    lemma_mul_mod_noop_left(x1, y1, p);
    lemma_mul_mod_noop_left(x2, y2, p);
    lemma_mul_mod_noop_left(x3, y3, p);
    lemma_sum4_terms(modp(x0) * y0, modp(x1) * y1, modp(x2) * y2, modp(x3) * y3);
    lemma_sum4_terms(x0 * y0, x1 * y1, x2 * y2, x3 * y3);
}

/// A sum of four terms modulo `P` depends only on each term modulo `P`.
proof fn lemma_sum4_terms(t0: int, t1: int, t2: int, t3: int)
    ensures
        modp(t0 + t1 + t2 + t3) == modp(modp(t0) + modp(t1) + modp(t2) + modp(t3)),
{
    let p = P as int;
    lemma_add_mod_noop(t0, t1, p);
    lemma_add_mod_noop(t0 + t1, t2, p);
    lemma_add_mod_noop(t0 + t1 + t2, t3, p);
    lemma_mod_twice(t0, p);
    lemma_mod_twice(t1, p);
    lemma_mod_twice(t2, p);
    lemma_mod_twice(t3, p);
    lemma_add_mod_noop(modp(t0), modp(t1), p);
    lemma_add_mod_noop(modp(t0) + modp(t1), modp(t2), p);
    lemma_add_mod_noop(modp(t0) + modp(t1) + modp(t2), modp(t3), p);
}

/// Each coefficient of `mul_raw(a, b)` as a sum of `a_i` times a factor
/// that depends on `b` alone.
proof fn lemma_mul_raw_linear_left(a: Quad, b: Quad)
    ensures
        mul_raw(a, b).0 == a.0 * b.0 + a.1 * (11 * b.3) + a.2 * (11 * b.2) + a.3 * (11 * b.1),
        mul_raw(a, b).1 == a.0 * b.1 + a.1 * b.0 + a.2 * (11 * b.3) + a.3 * (11 * b.2),
        mul_raw(a, b).2 == a.0 * b.2 + a.1 * b.1 + a.2 * b.0 + a.3 * (11 * b.3),
        mul_raw(a, b).3 == a.0 * b.3 + a.1 * b.2 + a.2 * b.1 + a.3 * b.0,
{
    let (a0, a1, a2, a3) = a;
    let (b0, b1, b2, b3) = b;
    assert(a0 * b0 + 11 * (a1 * b3 + a2 * b2 + a3 * b1) == a0 * b0 + a1 * (11 * b3) + a2 * (11
        * b2) + a3 * (11 * b1)) by (nonlinear_arith);
    assert(a0 * b1 + a1 * b0 + 11 * (a2 * b3 + a3 * b2) == a0 * b1 + a1 * b0 + a2 * (11 * b3)
        + a3 * (11 * b2)) by (nonlinear_arith);
    assert(a0 * b2 + a1 * b1 + a2 * b0 + 11 * (a3 * b3) == a0 * b2 + a1 * b1 + a2 * b0 + a3 * (11
        * b3)) by (nonlinear_arith);
}

/// Multiplication is commutative already over the integers.
pub proof fn lemma_mul_raw_commutative(a: Quad, b: Quad)
    ensures
        mul_raw(a, b) == mul_raw(b, a),
{
    let (a0, a1, a2, a3) = a;
    let (b0, b1, b2, b3) = b;
    assert(a0 * b0 == b0 * a0 && a1 * b3 == b3 * a1 && a2 * b2 == b2 * a2 && a3 * b1 == b1 * a3
        && a0 * b1 == b1 * a0 && a1 * b0 == b0 * a1 && a2 * b3 == b3 * a2 && a3 * b2 == b2 * a3
        && a0 * b2 == b2 * a0 && a1 * b1 == b1 * a1 && a2 * b0 == b0 * a2 && a3 * b3 == b3 * a3
        && a0 * b3 == b3 * a0 && a1 * b2 == b2 * a1 && a2 * b1 == b1 * a2 && a3 * b0 == b0 * a3)
        by (nonlinear_arith);
}

/// Reducing the left factor first does not change the product.
pub proof fn lemma_ext_mul_reduce_left(a: Quad, b: Quad)
    ensures
        ext_mul(reduce(a), b) == ext_mul(a, b),
{
    let (b0, b1, b2, b3) = b;
    lemma_mul_raw_linear_left(a, b);
    lemma_mul_raw_linear_left(reduce(a), b);
    lemma_sum4_noop(a.0, a.1, a.2, a.3, b0, 11 * b3, 11 * b2, 11 * b1);
    lemma_sum4_noop(a.0, a.1, a.2, a.3, b1, b0, 11 * b3, 11 * b2);
    lemma_sum4_noop(a.0, a.1, a.2, a.3, b2, b1, b0, 11 * b3);
    lemma_sum4_noop(a.0, a.1, a.2, a.3, b3, b2, b1, b0);
}

/// Reducing either factor first does not change the product.
pub proof fn lemma_ext_mul_reduce(a: Quad, b: Quad)
    ensures
        ext_mul(reduce(a), b) == ext_mul(a, b),
        ext_mul(a, reduce(b)) == ext_mul(a, b),
{
    lemma_ext_mul_reduce_left(a, b);
    lemma_ext_mul_reduce_left(b, a);
    lemma_mul_raw_commutative(a, reduce(b));
    lemma_mul_raw_commutative(a, b);
}

/// Coefficient-wise sum over the integers.
pub open spec fn add_raw(x: Quad, y: Quad) -> Quad {
    (x.0 + y.0, x.1 + y.1, x.2 + y.2, x.3 + y.3)
}

/// Every coefficient times `s`, over the integers.
pub open spec fn scale_raw(x: Quad, s: int) -> Quad {
    (x.0 * s, x.1 * s, x.2 * s, x.3 * s)
}

/// Multiplication by `X`: a rotation with the wrapped coefficient times `beta`.
pub open spec fn shift(x: Quad) -> Quad {
    (11 * x.3, x.0, x.1, x.2)
}

proof fn lemma_mul_raw_additive(x: Quad, y: Quad, c: Quad)
    ensures
        mul_raw(add_raw(x, y), c) == add_raw(mul_raw(x, c), mul_raw(y, c)),
{
    let (x0, x1, x2, x3) = x;
    let (y0, y1, y2, y3) = y;
    let (c0, c1, c2, c3) = c;
    assert((x0 + y0) * c0 == x0 * c0 + y0 * c0 && (x1 + y1) * c3 == x1 * c3 + y1 * c3 && (x2 + y2)
        * c2 == x2 * c2 + y2 * c2 && (x3 + y3) * c1 == x3 * c1 + y3 * c1) by (nonlinear_arith);
    assert((x0 + y0) * c1 == x0 * c1 + y0 * c1 && (x1 + y1) * c0 == x1 * c0 + y1 * c0 && (x2 + y2)
        * c3 == x2 * c3 + y2 * c3 && (x3 + y3) * c2 == x3 * c2 + y3 * c2) by (nonlinear_arith);
    assert((x0 + y0) * c2 == x0 * c2 + y0 * c2 && (x1 + y1) * c1 == x1 * c1 + y1 * c1 && (x2 + y2)
        * c0 == x2 * c0 + y2 * c0 && (x3 + y3) * c3 == x3 * c3 + y3 * c3) by (nonlinear_arith);
    assert((x0 + y0) * c3 == x0 * c3 + y0 * c3 && (x1 + y1) * c2 == x1 * c2 + y1 * c2 && (x2 + y2)
        * c1 == x2 * c1 + y2 * c1 && (x3 + y3) * c0 == x3 * c0 + y3 * c0) by (nonlinear_arith);
}

proof fn lemma_mul_raw_homogeneous(x: Quad, s: int, c: Quad)
    ensures
        mul_raw(scale_raw(x, s), c) == scale_raw(mul_raw(x, c), s),
{
    let (x0, x1, x2, x3) = x;
    let (c0, c1, c2, c3) = c;
    assert(forall|u: int, v: int| #[trigger] ((u * s) * v) == (u * v) * s) by {
        assert forall|u: int, v: int| #[trigger] ((u * s) * v) == (u * v) * s by {
            vstd::arithmetic::mul::lemma_mul_is_associative(u, s, v);
            vstd::arithmetic::mul::lemma_mul_is_associative(u, v, s);
            vstd::arithmetic::mul::lemma_mul_is_commutative(s, v);
        }
    }
    let m = mul_raw(x, c);
    assert(m.0 * s == (x0 * c0) * s + 11 * ((x1 * c3) * s + (x2 * c2) * s + (x3 * c1) * s))
        by (nonlinear_arith)
        requires
            m.0 == x0 * c0 + 11 * (x1 * c3 + x2 * c2 + x3 * c1),
    ;
    assert(m.1 * s == (x0 * c1) * s + (x1 * c0) * s + 11 * ((x2 * c3) * s + (x3 * c2) * s))
        by (nonlinear_arith)
        requires
            m.1 == x0 * c1 + x1 * c0 + 11 * (x2 * c3 + x3 * c2),
    ;
    assert(m.2 * s == (x0 * c2) * s + (x1 * c1) * s + (x2 * c0) * s + 11 * ((x3 * c3) * s))
        by (nonlinear_arith)
        requires
            m.2 == x0 * c2 + x1 * c1 + x2 * c0 + 11 * (x3 * c3),
    ;
    assert(m.3 * s == (x0 * c3) * s + (x1 * c2) * s + (x2 * c1) * s + (x3 * c0) * s)
        by (nonlinear_arith)
        requires
            m.3 == x0 * c3 + x1 * c2 + x2 * c1 + x3 * c0,
    ;
}

proof fn lemma_mul_raw_shift(x: Quad, c: Quad)
    ensures
        mul_raw(shift(x), c) == shift(mul_raw(x, c)),
{
    let (x0, x1, x2, x3) = x;
    let (c0, c1, c2, c3) = c;
    assert((11 * x3) * c0 == 11 * (x3 * c0) && (11 * x3) * c1 == 11 * (x3 * c1) && (11 * x3) * c2
        == 11 * (x3 * c2) && (11 * x3) * c3 == 11 * (x3 * c3)) by (nonlinear_arith);
}

/// `a * b = a0 b + a1 (X b) + a2 (X^2 b) + a3 (X^3 b)`.
proof fn lemma_mul_raw_decompose(a: Quad, b: Quad)
    ensures
        mul_raw(a, b) == add_raw(
            add_raw(add_raw(scale_raw(b, a.0), scale_raw(shift(b), a.1)), scale_raw(shift(shift(b)), a.2)),
            scale_raw(shift(shift(shift(b))), a.3),
        ),
{
    let (a0, a1, a2, a3) = a;
    let (b0, b1, b2, b3) = b;
    assert(a0 * b0 + 11 * (a1 * b3 + a2 * b2 + a3 * b1) == b0 * a0 + (11 * b3) * a1 + (11 * b2)
        * a2 + (11 * b1) * a3) by (nonlinear_arith);
    assert(a0 * b1 + a1 * b0 + 11 * (a2 * b3 + a3 * b2) == b1 * a0 + b0 * a1 + (11 * b3) * a2 + (
    11 * b2) * a3) by (nonlinear_arith);
    assert(a0 * b2 + a1 * b1 + a2 * b0 + 11 * (a3 * b3) == b2 * a0 + b1 * a1 + b0 * a2 + (11 * b3)
        * a3) by (nonlinear_arith);
    assert(a0 * b3 + a1 * b2 + a2 * b1 + a3 * b0 == b3 * a0 + b2 * a1 + b1 * a2 + b0 * a3)
        by (nonlinear_arith);
}

/// Multiplication is associative over the integers.
pub proof fn lemma_mul_raw_associative(a: Quad, b: Quad, c: Quad)
    ensures
        mul_raw(mul_raw(a, b), c) == mul_raw(a, mul_raw(b, c)),
{
    let b1 = shift(b);
    let b2 = shift(b1);
    let b3 = shift(b2);
    let t0 = scale_raw(b, a.0);
    let t1 = scale_raw(b1, a.1);
    let t2 = scale_raw(b2, a.2);
    let t3 = scale_raw(b3, a.3);
    lemma_mul_raw_decompose(a, b);
    lemma_mul_raw_additive(add_raw(add_raw(t0, t1), t2), t3, c);
    lemma_mul_raw_additive(add_raw(t0, t1), t2, c);
    lemma_mul_raw_additive(t0, t1, c);
    lemma_mul_raw_homogeneous(b, a.0, c);
    lemma_mul_raw_homogeneous(b1, a.1, c);
    lemma_mul_raw_homogeneous(b2, a.2, c);
    lemma_mul_raw_homogeneous(b3, a.3, c);
    lemma_mul_raw_shift(b, c);
    lemma_mul_raw_shift(b1, c);
    lemma_mul_raw_shift(b2, c);
    lemma_mul_raw_decompose(a, mul_raw(b, c));
}


pub proof fn lemma_ext_mul_commutative(a: Quad, b: Quad)
    ensures
        ext_mul(a, b) == ext_mul(b, a),
{
    lemma_mul_raw_commutative(a, b);
}

pub proof fn lemma_ext_mul_associative(a: Quad, b: Quad, c: Quad)
    ensures
        ext_mul(ext_mul(a, b), c) == ext_mul(a, ext_mul(b, c)),
{
    lemma_ext_mul_reduce(mul_raw(a, b), c);
    lemma_ext_mul_reduce(a, mul_raw(b, c));
    lemma_mul_raw_associative(a, b, c);
}

pub proof fn lemma_ext_mul_distributive(a: Quad, b: Quad, c: Quad)
    ensures
        ext_mul(a, ext_add(b, c)) == ext_add(ext_mul(a, b), ext_mul(a, c)),
{
    let s = add_raw(b, c);
    assert(ext_add(b, c) == reduce(s));
    lemma_ext_mul_reduce(a, s);
    lemma_mul_raw_commutative(a, s);
    lemma_mul_raw_commutative(a, b);
    lemma_mul_raw_commutative(a, c);
    lemma_mul_raw_additive(b, c, a);
    let x = mul_raw(b, a);
    let y = mul_raw(c, a);
    lemma_fadd_noop(x.0, y.0);
    lemma_fadd_noop(x.1, y.1);
    lemma_fadd_noop(x.2, y.2);
    lemma_fadd_noop(x.3, y.3);
}

pub proof fn lemma_ext_add_commutative(a: Quad, b: Quad)
    ensures
        ext_add(a, b) == ext_add(b, a),
{
}

pub proof fn lemma_ext_add_associative(a: Quad, b: Quad, c: Quad)
    ensures
        ext_add(a, ext_add(b, c)) == ext_add(ext_add(a, b), c),
{
    crate::field::lemma_fadd_associative(a.0, b.0, c.0);
    crate::field::lemma_fadd_associative(a.1, b.1, c.1);
    crate::field::lemma_fadd_associative(a.2, b.2, c.2);
    crate::field::lemma_fadd_associative(a.3, b.3, c.3);
}

/// `a + (-a) = 0` and `(a + b) - b = a` for canonical `a`.
pub proof fn lemma_ext_additive_inverse(a: Quad, b: Quad)
    requires
        canonical(a),
    ensures
        ext_add(a, ext_neg(a)) == embed(0),
        ext_sub(ext_add(a, b), b) == a,
        ext_sub(embed(0), a) == ext_neg(a),
{
    crate::field::lemma_additive_inverse(a.0, b.0);
    crate::field::lemma_additive_inverse(a.1, b.1);
    crate::field::lemma_additive_inverse(a.2, b.2);
    crate::field::lemma_additive_inverse(a.3, b.3);
}

/// One is the multiplicative identity on canonical elements.
pub proof fn lemma_ext_mul_one(a: Quad)
    requires
        canonical(a),
    ensures
        ext_mul(embed(1), a) == a,
        ext_mul(a, embed(1)) == a,
{
    lemma_modp_small(a.0);
    lemma_modp_small(a.1);
    lemma_modp_small(a.2);
    lemma_modp_small(a.3);
    lemma_mul_raw_commutative(a, embed(1));
}

/// Products are canonical.
pub proof fn lemma_ext_mul_canonical(a: Quad, b: Quad)
    ensures
        canonical(ext_mul(a, b)),
{
    let m = mul_raw(a, b);
    lemma_modp_bound(m.0);
    lemma_modp_bound(m.1);
    lemma_modp_bound(m.2);
    lemma_modp_bound(m.3);
}

/// Powers are canonical.
pub proof fn lemma_ext_pow_canonical(a: Quad, n: nat)
    ensures
        canonical(ext_pow(a, n)),
{
    if n > 0 {
        lemma_ext_mul_canonical(a, ext_pow(a, (n - 1) as nat));
    }
}

/// `a^(m + n) = a^m * a^n`.
pub proof fn lemma_ext_pow_adds(a: Quad, m: nat, n: nat)
    ensures
        ext_pow(a, m + n) == ext_mul(ext_pow(a, m), ext_pow(a, n)),
    decreases m,
{
    if m == 0 {
        lemma_ext_pow_canonical(a, n);
        lemma_ext_mul_one(ext_pow(a, n));
    } else {
        lemma_ext_pow_adds(a, (m - 1) as nat, n);
        assert(ext_pow(a, m + n) == ext_mul(a, ext_pow(a, (m - 1 + n) as nat)));
        lemma_ext_mul_associative(a, ext_pow(a, (m - 1) as nat), ext_pow(a, n));
    }
}

/// `(a * a)^n = a^(2n)`.
pub proof fn lemma_ext_pow_square(a: Quad, n: nat)
    ensures
        ext_pow(ext_mul(a, a), n) == ext_pow(a, 2 * n),
    decreases n,
{
    if n > 0 {
        lemma_ext_pow_square(a, (n - 1) as nat);
        lemma_ext_pow_adds(a, 2, (2 * (n - 1)) as nat);
        let p1 = ext_pow(a, 1);
        assert(p1 == ext_mul(a, ext_pow(a, 0)));
        lemma_mul_raw_commutative(a, embed(1));
        assert(mul_raw(embed(1), a) == a);
        assert(ext_pow(a, 2) == ext_mul(a, p1));
        lemma_ext_mul_reduce(a, a);
        assert((2 + 2 * (n - 1)) as nat == 2 * n);
    }
}

/// One step of square-and-multiply keeps `acc * x^n` unchanged.
pub proof fn lemma_ext_square_multiply_step(acc: Quad, x: Quad, n: nat)
    requires
        canonical(acc),
    ensures
        ext_mul(acc, ext_pow(x, n)) == ext_mul(
            if n % 2 == 1 { ext_mul(acc, x) } else { acc },
            ext_pow(ext_mul(x, x), n / 2),
        ),
{
    let k = n / 2;
    lemma_ext_pow_square(x, k);
    if n % 2 == 1 {
        assert(ext_pow(x, n) == ext_mul(x, ext_pow(x, 2 * k)));
        lemma_ext_mul_associative(acc, x, ext_pow(x, 2 * k));
    } else {
        assert(n == 2 * k);
    }
}


/// The coefficients of `mul_raw`, computed with field operations as
/// [`crate::ExtElem`] does, equal the reduced product.
pub proof fn lemma_ext_mul_by_field_ops(a: Quad, b: Quad)
    ensures
        fadd(fmul(a.0, b.0), fmul(11, fadd(fadd(fmul(a.1, b.3), fmul(a.2, b.2)), fmul(a.3, b.1))))
            == ext_mul(a, b).0,
        fadd(fadd(fmul(a.0, b.1), fmul(a.1, b.0)), fmul(11, fadd(fmul(a.2, b.3), fmul(a.3, b.2))))
            == ext_mul(a, b).1,
        fadd(fadd(fadd(fmul(a.0, b.2), fmul(a.1, b.1)), fmul(a.2, b.0)), fmul(11, fmul(a.3, b.3)))
            == ext_mul(a, b).2,
        fadd(fadd(fadd(fmul(a.0, b.3), fmul(a.1, b.2)), fmul(a.2, b.1)), fmul(a.3, b.0)) == ext_mul(
            a,
            b,
        ).3,
{
    let (a0, a1, a2, a3) = a;
    let (b0, b1, b2, b3) = b;
    // First coefficient.
    lemma_fadd_noop(a1 * b3, a2 * b2);
    lemma_fadd_noop(a1 * b3 + a2 * b2, a3 * b1);
    lemma_fmul_noop(11, a1 * b3 + a2 * b2 + a3 * b1);
    lemma_fadd_noop(a0 * b0, 11 * (a1 * b3 + a2 * b2 + a3 * b1));
    // Second.
    lemma_fadd_noop(a0 * b1, a1 * b0);
    lemma_fadd_noop(a2 * b3, a3 * b2);
    lemma_fmul_noop(11, a2 * b3 + a3 * b2);
    lemma_fadd_noop(a0 * b1 + a1 * b0, 11 * (a2 * b3 + a3 * b2));
    // Third.
    lemma_fadd_noop(a0 * b2, a1 * b1);
    lemma_fadd_noop(a0 * b2 + a1 * b1, a2 * b0);
    lemma_fmul_noop(11, a3 * b3);
    lemma_fadd_noop(a0 * b2 + a1 * b1 + a2 * b0, 11 * (a3 * b3));
    // Fourth.
    lemma_fadd_noop(a0 * b3, a1 * b2);
    lemma_fadd_noop(a0 * b3 + a1 * b2, a2 * b1);
    lemma_fadd_noop(a0 * b3 + a1 * b2 + a2 * b1, a3 * b0);
}

/// `b0` of `b = a * conj(a) = b0 + b2 X^2`, where `conj(a)` negates the odd
/// coefficients of `a`.
pub open spec fn norm_b0(a: Quad) -> int {
    fadd(fmul(a.0, a.0), fmul(11, fsub(fmul(a.2, a.2), fmul(a.1, fadd(a.3, a.3)))))
}

/// `b2` of `b = a * conj(a) = b0 + b2 X^2`.
pub open spec fn norm_b2(a: Quad) -> int {
    fsub(fsub(fmul(a.0, fadd(a.2, a.2)), fmul(a.1, a.1)), fmul(11, fmul(a.3, a.3)))
}

/// The norm of `a` down to the base field: `b0^2 - beta * b2^2`.
pub open spec fn ext_norm(a: Quad) -> int {
    fsub(fmul(norm_b0(a), norm_b0(a)), fmul(fmul(11, norm_b2(a)), norm_b2(a)))
}

/// `conj(a) * conj'(b) / norm(a)`, given `ic = 1 / norm(a)`: the inverse of `a`.
pub open spec fn ext_inv_with(a: Quad, ic: int) -> Quad {
    let b0 = fmul(norm_b0(a), ic);
    let b2 = fmul(norm_b2(a), ic);
    (
        fsub(fmul(a.0, b0), fmul(fmul(11, a.2), b2)),
        fadd(fmul(fneg(a.1), b0), fmul(fmul(11, a.3), b2)),
        fadd(fmul(fneg(a.0), b2), fmul(a.2, b0)),
        fsub(fmul(a.1, b2), fmul(a.3, b0)),
    )
}


/// `b0` of `a * conj(a)`, over the integers.
pub open spec fn norm_b0_raw(a: Quad) -> int {
    a.0 * a.0 + 11 * (a.2 * a.2 - a.1 * (a.3 + a.3))
}

/// `b2` of `a * conj(a)`, over the integers.
pub open spec fn norm_b2_raw(a: Quad) -> int {
    a.0 * (a.2 + a.2) - a.1 * a.1 - 11 * (a.3 * a.3)
}

pub proof fn lemma_norm_parts(a: Quad)
    ensures
        norm_b0(a) == modp(norm_b0_raw(a)),
        norm_b2(a) == modp(norm_b2_raw(a)),
        ext_norm(a) == modp(
            norm_b0_raw(a) * norm_b0_raw(a) - 11 * norm_b2_raw(a) * norm_b2_raw(a),
        ),
{
    let (a0, a1, a2, a3) = a;
    lemma_fmul_noop(a1, a3 + a3);
    crate::field::lemma_fsub_noop(a2 * a2, a1 * (a3 + a3));
    lemma_fmul_noop(11, a2 * a2 - a1 * (a3 + a3));
    lemma_fadd_noop(a0 * a0, 11 * (a2 * a2 - a1 * (a3 + a3)));
    lemma_fmul_noop(a0, a2 + a2);
    crate::field::lemma_fsub_noop(a0 * (a2 + a2), a1 * a1);
    lemma_fmul_noop(11, a3 * a3);
    crate::field::lemma_fsub_noop(a0 * (a2 + a2) - a1 * a1, 11 * (a3 * a3));
    let b0 = norm_b0_raw(a);
    let b2 = norm_b2_raw(a);
    lemma_fmul_noop(b0, b0);
    lemma_fmul_noop(11, b2);
    lemma_fmul_noop(11 * b2, b2);
    crate::field::lemma_fsub_noop(b0 * b0, 11 * b2 * b2);
}

/// `conj(a)`: the odd coefficients negated.
spec fn conj(a: Quad) -> Quad {
    (a.0, -a.1, a.2, -a.3)
}

/// `-X^2 conj(a)`.
spec fn conj_shifted(a: Quad) -> Quad {
    (-(11 * a.2), 11 * a.3, -a.0, a.1)
}

proof fn lemma_conj_products(a: Quad)
    ensures
        mul_raw(conj(a), a) == (norm_b0_raw(a), 0int, norm_b2_raw(a), 0int),
        mul_raw(conj_shifted(a), a) == (-11 * norm_b2_raw(a), 0int, -norm_b0_raw(a), 0int),
{
    let (a0, a1, a2, a3) = a;
    assert(a0 * a0 + 11 * ((-a1) * a3 + a2 * a2 + (-a3) * a1) == a0 * a0 + 11 * (a2 * a2 - a1
        * (a3 + a3))) by (nonlinear_arith);
    assert(a0 * a1 + (-a1) * a0 + 11 * (a2 * a3 + (-a3) * a2) == 0) by (nonlinear_arith);
    assert(a0 * a2 + (-a1) * a1 + a2 * a0 + 11 * ((-a3) * a3) == a0 * (a2 + a2) - a1 * a1 - 11 * (
    a3 * a3)) by (nonlinear_arith);
    assert(a0 * a3 + (-a1) * a2 + a2 * a1 + (-a3) * a0 == 0) by (nonlinear_arith);
    assert((-(11 * a2)) * a0 + 11 * ((11 * a3) * a3 + (-a0) * a2 + a1 * a1) == -11 * (a0 * (a2
        + a2) - a1 * a1 - 11 * (a3 * a3))) by (nonlinear_arith);
    assert((-(11 * a2)) * a1 + (11 * a3) * a0 + 11 * ((-a0) * a3 + a1 * a2) == 0)
        by (nonlinear_arith);
    assert((-(11 * a2)) * a2 + (11 * a3) * a1 + (-a0) * a0 + 11 * (a1 * a3) == -(a0 * a0 + 11 * (
    a2 * a2 - a1 * (a3 + a3)))) by (nonlinear_arith);
    assert((-(11 * a2)) * a3 + (11 * a3) * a2 + (-a0) * a1 + a1 * a0 == 0) by (nonlinear_arith);
}

/// The inverse computed with field operations is the reduction of
/// `b0 conj(a) + b2 (-X^2 conj(a))`.
proof fn lemma_inverse_as_field_ops(a: Quad, ic: int)
    ensures
        ({
            let b0 = fmul(norm_b0(a), ic);
            let b2 = fmul(norm_b2(a), ic);
            ext_inv_with(a, ic) == reduce(
                add_raw(scale_raw(conj(a), b0), scale_raw(conj_shifted(a), b2)),
            )
        }),
{
    let (a0, a1, a2, a3) = a;
    let b0 = fmul(norm_b0(a), ic);
    let b2 = fmul(norm_b2(a), ic);
    lemma_fmul_noop(a0, b0);
    lemma_fmul_noop(11 * a2, b2);
    crate::field::lemma_fsub_noop(a0 * b0, (11 * a2) * b2);
    vstd::arithmetic::mul::lemma_mul_unary_negation(11 * a2, b2);
    lemma_fmul_noop(-a1, b0);
    lemma_fmul_noop(11 * a3, b2);
    lemma_fadd_noop((-a1) * b0, (11 * a3) * b2);
    lemma_fmul_noop(-a0, b2);
    lemma_fmul_noop(a2, b0);
    lemma_fadd_noop((-a0) * b2, a2 * b0);
    lemma_fmul_noop(a1, b2);
    lemma_fmul_noop(a3, b0);
    crate::field::lemma_fsub_noop(a1 * b2, a3 * b0);
    vstd::arithmetic::mul::lemma_mul_unary_negation(a3, b0);
}

/// `modp(x * modp(y) + z * modp(w)) = modp(x * y + z * w)`.
proof fn lemma_sum2_noop(x: int, y: int, z: int, w: int)
    ensures
        modp(x * modp(y) + z * modp(w)) == modp(x * y + z * w),
{
    lemma_fmul_noop(x, y);
    lemma_fmul_noop(z, w);
    lemma_fadd_noop(x * modp(y), z * modp(w));
    lemma_fadd_noop(x * y, z * w);
}

/// For an element of nonzero norm, [`ext_inv_with`] applied to the inverse
/// of the norm is a multiplicative inverse.
pub proof fn lemma_ext_inverse(a: Quad)
    requires
        canonical(a),
        ext_norm(a) != 0,
    ensures
        ext_mul(ext_inv_with(a, crate::field::fpow(ext_norm(a), (P - 2) as nat)), a) == embed(1),
{
    let n = ext_norm(a);
    let ic = crate::field::fpow(n, (P - 2) as nat);
    let nb0 = norm_b0_raw(a);
    let nb2 = norm_b2_raw(a);
    let c = nb0 * nb0 - 11 * nb2 * nb2;
    lemma_norm_parts(a);
    lemma_modp_bound(c);
    crate::fermat::lemma_inverse(n);
    let b0 = fmul(norm_b0(a), ic);
    let b2 = fmul(norm_b2(a), ic);
    lemma_fmul_noop(nb0, ic);
    lemma_fmul_noop(nb2, ic);
    let u = scale_raw(conj(a), b0);
    let v = scale_raw(conj_shifted(a), b2);
    let i = add_raw(u, v);
    lemma_inverse_as_field_ops(a, ic);
    lemma_ext_mul_reduce(i, a);
    lemma_mul_raw_additive(u, v, a);
    lemma_mul_raw_homogeneous(conj(a), b0, a);
    lemma_mul_raw_homogeneous(conj_shifted(a), b2, a);
    lemma_conj_products(a);
    let m = mul_raw(i, a);
    assert(m.0 == nb0 * b0 + (-11 * nb2) * b2);
    assert(m.1 == 0int * b0 + 0int * b2);
    assert(m.2 == nb2 * b0 + (-nb0) * b2);
    assert(m.3 == 0int * b0 + 0int * b2);
    assert(m.1 == 0 && m.3 == 0) by (nonlinear_arith)
        requires
            m.1 == 0int * b0 + 0int * b2,
            m.3 == 0int * b0 + 0int * b2,
    ;
    lemma_modp_small(0);
    // The constant coefficient is `c / c = 1`.
    lemma_sum2_noop(nb0, nb0 * ic, -11 * nb2, nb2 * ic);
    assert(nb0 * (nb0 * ic) + (-11 * nb2) * (nb2 * ic) == ic * c) by (nonlinear_arith)
        requires
            c == nb0 * nb0 - 11 * nb2 * nb2,
    ;
    lemma_fmul_noop(ic, c);
    crate::field::lemma_fmul_commutative(ic, n);
    // The coefficient of `X^2` cancels.
    lemma_sum2_noop(nb2, nb0 * ic, -nb0, nb2 * ic);
    assert(nb2 * (nb0 * ic) + (-nb0) * (nb2 * ic) == 0) by (nonlinear_arith);
}

} // verus!
