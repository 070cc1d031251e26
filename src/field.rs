//! Arithmetic modulo the BabyBear prime, stated over mathematical integers.
use vstd::arithmetic::div_mod::*;
use vstd::arithmetic::mul::*;
use vstd::arithmetic::power::*;
use vstd::arithmetic::power2::*;
use vstd::prelude::*;

verus! {

/// The BabyBear prime, `15 * 2^27 + 1`.
pub const P: u32 = 2013265921;

/// `P` as a `u64`.
pub const P_U64: u64 = 2013265921;

/// The largest `k` such that `2^k` divides `P - 1`.
pub const TWO_ADICITY: usize = 27;

/// The canonical representative of `x` modulo `P`.
pub open spec fn modp(x: int) -> int {
    x % (P as int)
}

/// Field addition on canonical representatives.
pub open spec fn fadd(a: int, b: int) -> int {
    modp(a + b)
}

/// Field subtraction on canonical representatives.
pub open spec fn fsub(a: int, b: int) -> int {
    modp(a - b)
}

/// Field multiplication on canonical representatives.
pub open spec fn fmul(a: int, b: int) -> int {
    modp(a * b)
}

/// Additive inverse on canonical representatives.
pub open spec fn fneg(a: int) -> int {
    modp(-a)
}

/// `a^e` reduced modulo `P`.
pub open spec fn fpow(a: int, e: nat) -> int {
    modp(pow(a, e))
}

pub proof fn lemma_modp_bound(x: int)
    ensures
        0 <= modp(x) < P,
{
    lemma_mod_bound(x, P as int);
}

pub proof fn lemma_modp_small(x: int)
    requires
        0 <= x < P,
    ensures
        modp(x) == x,
{
    lemma_small_mod(x as nat, P as nat);
}


/// One subtraction of `P` reduces a sum of two canonical representatives.
pub proof fn lemma_mod_sub_once(x: int)
    requires
        P <= x < 2 * P,
    ensures
        modp(x) == x - P,
{
    lemma_mod_sub_multiples_vanish(x, P as int);
    lemma_small_mod((x - P) as nat, P as nat);
}


pub proof fn lemma_fmul_noop(x: int, y: int)
    ensures
        fmul(modp(x), modp(y)) == fmul(x, y),
        fmul(modp(x), y) == fmul(x, y),
        fmul(x, modp(y)) == fmul(x, y),
{
    lemma_mul_mod_noop(x, y, P as int);
    lemma_mul_mod_noop_left(x, y, P as int);
    lemma_mul_mod_noop_right(x, y, P as int);
}

pub proof fn lemma_fadd_noop(x: int, y: int)
    ensures
        fadd(modp(x), modp(y)) == fadd(x, y),
        fadd(modp(x), y) == fadd(x, y),
        fadd(x, modp(y)) == fadd(x, y),
{
    lemma_add_mod_noop(x, y, P as int);
    lemma_add_mod_noop_right(x, y, P as int);
    lemma_add_mod_noop(x, y - modp(y), P as int);
    lemma_mod_twice(x, P as int);
    lemma_mod_twice(y, P as int);
    lemma_add_mod_noop(x, modp(y), P as int);
    lemma_add_mod_noop(modp(x), y, P as int);
}

pub proof fn lemma_fsub_noop(x: int, y: int)
    ensures
        fsub(modp(x), modp(y)) == fsub(x, y),
        fsub(modp(x), y) == fsub(x, y),
        fsub(x, modp(y)) == fsub(x, y),
{
    lemma_sub_mod_noop(x, y, P as int);
    lemma_mod_twice(x, P as int);
    lemma_mod_twice(y, P as int);
    lemma_sub_mod_noop(modp(x), y, P as int);
    lemma_sub_mod_noop(x, modp(y), P as int);
}

/// `a^0 = 1` and `a^1 = a` for a canonical `a`.
pub proof fn lemma_fpow_small(a: int)
    requires
        0 <= a < P,
    ensures
        fpow(a, 0) == 1,
        fpow(a, 1) == a,
{
    lemma_pow0(a);
    lemma_pow1(a);
    lemma_modp_small(1);
    lemma_modp_small(a);
}

/// `a^e1 * a^e2 = a^(e1 + e2)`.
pub proof fn lemma_fpow_adds(a: int, e1: nat, e2: nat)
    ensures
        fmul(fpow(a, e1), fpow(a, e2)) == fpow(a, e1 + e2),
{
    lemma_pow_adds(a, e1, e2);
    lemma_fmul_noop(pow(a, e1), pow(a, e2));
}

/// `(a^e1)^e2 = a^(e1 * e2)`.
pub proof fn lemma_fpow_multiplies(a: int, e1: nat, e2: nat)
    ensures
        fpow(fpow(a, e1), e2) == fpow(a, e1 * e2),
{
    lemma_pow_mod_noop(pow(a, e1), e2, P as int);
    lemma_pow_multiplies(a, e1, e2);
}

/// Reducing the base first does not change a power.
pub proof fn lemma_fpow_noop(a: int, e: nat)
    ensures
        fpow(modp(a), e) == fpow(a, e),
{
    lemma_pow_mod_noop(a, e, P as int);
}

/// Squaring `a^e` gives `a^(2e)`.
pub proof fn lemma_fpow_square(a: int, e: nat)
    ensures
        fmul(fpow(a, e), fpow(a, e)) == fpow(a, 2 * e),
{
    lemma_fpow_adds(a, e, e);
}

/// `x^n` splits into its low bit and `(x^2)^(n/2)`.
pub proof fn lemma_pow_split(x: int, n: nat)
    ensures
        pow(x, n) == (if n % 2 == 1 { x } else { 1 }) * pow(x * x, n / 2),
{
    let k = n / 2;
    let r = n % 2;
    assert(n == 2 * k + r);
    lemma_pow_adds(x, 2 * k, r);
    lemma_pow_multiplies(x, 2, k);
    lemma_square_is_pow2(x);
    lemma_pow0(x);
    lemma_pow1(x);
    lemma_mul_is_commutative(pow(x, 2 * k), pow(x, r));
}

/// One step of square-and-multiply keeps `acc * x^n` unchanged.
pub proof fn lemma_square_multiply_step(acc: int, x: int, n: nat)
    requires
        0 <= acc < P,
    ensures
        fmul(acc, fpow(x, n)) == fmul(
            if n % 2 == 1 { fmul(acc, x) } else { acc },
            fpow(fmul(x, x), n / 2),
        ),
{
    let s: int = if n % 2 == 1 { x } else { 1 };
    let q = pow(x * x, n / 2);
    lemma_pow_split(x, n);
    lemma_fpow_noop(x * x, n / 2);
    lemma_fmul_noop(acc, s * q);
    lemma_fmul_noop(acc * s, q);
    lemma_mul_is_associative(acc, s, q);
    lemma_modp_small(acc);
}

/// `2^k` squarings of `a^e` give `a^(e * 2^k)`.
pub proof fn lemma_fpow_pow2_step(a: int, i: nat)
    ensures
        fmul(fpow(a, pow2(i)), fpow(a, pow2(i))) == fpow(a, pow2(i + 1)),
{
    lemma_fpow_square(a, pow2(i));
    lemma_pow2_unfold(i + 1);
}


pub proof fn lemma_fadd_commutative(a: int, b: int)
    ensures
        fadd(a, b) == fadd(b, a),
{
}

pub proof fn lemma_fadd_associative(a: int, b: int, c: int)
    ensures
        fadd(a, fadd(b, c)) == fadd(fadd(a, b), c),
{
    lemma_fadd_noop(a, b + c);
    lemma_fadd_noop(a + b, c);
    lemma_modp_small_ident(a);
    lemma_modp_small_ident(c);
}

/// `modp` is idempotent.
pub proof fn lemma_modp_small_ident(x: int)
    ensures
        modp(modp(x)) == modp(x),
{
    lemma_mod_twice(x, P as int);
}

pub proof fn lemma_fmul_commutative(a: int, b: int)
    ensures
        fmul(a, b) == fmul(b, a),
{
    lemma_mul_is_commutative(a, b);
}

pub proof fn lemma_fmul_associative(a: int, b: int, c: int)
    ensures
        fmul(a, fmul(b, c)) == fmul(fmul(a, b), c),
{
    lemma_fmul_noop(a, b * c);
    lemma_fmul_noop(a * b, c);
    lemma_mul_is_associative(a, b, c);
}

pub proof fn lemma_fmul_distributive(a: int, b: int, c: int)
    ensures
        fmul(a, fadd(b, c)) == fadd(fmul(a, b), fmul(a, c)),
{
    lemma_fmul_noop(a, b + c);
    lemma_mul_is_distributive_add(a, b, c);
    lemma_fadd_noop(a * b, a * c);
}

/// `a + (-a) = 0` and `(a + b) - b = a` for canonical `a`.
pub proof fn lemma_additive_inverse(a: int, b: int)
    requires
        0 <= a < P,
    ensures
        fadd(a, fneg(a)) == 0,
        fsub(fadd(a, b), b) == a,
        fsub(0, a) == fneg(a),
{
    lemma_fadd_noop(a, -a);
    lemma_modp_small(0);
    lemma_fsub_noop(a + b, b);
    lemma_modp_small(a);
}

} // verus!
