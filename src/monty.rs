//! BabyBear elements in Montgomery form.
use crate::baby_bear::BabyBear;
use crate::field::{
    fadd, fmul, fneg, fsub, lemma_fmul_noop, lemma_mod_sub_once, lemma_modp_bound,
    lemma_modp_small, modp, P, P_U64,
};
use core::ops::{Add, Mul, Neg, Sub};
use vstd::arithmetic::div_mod::{lemma_fundamental_div_mod, lemma_mod_multiples_vanish};
use vstd::arithmetic::mul::{lemma_mul_is_associative, lemma_mul_strict_inequality,
    lemma_mul_upper_bound};
use vstd::prelude::*;

verus! {

/// The Montgomery radix, `R = 2^32`.
pub const MONTY_R: u64 = 0x1_0000_0000;

/// `P^-1 mod 2^32`.
pub const MONTY_MU: u32 = 0x88000001;

/// `R^-1 mod P`.
pub const MONTY_R_INV: u32 = 943718400;

/// The field value that a Montgomery representative `v` stands for: `v * R^-1 mod P`.
pub open spec fn decode(v: int) -> int {
    fmul(v, MONTY_R_INV as int)
}

/// An element of `F_p` held in Montgomery form: the stored value is
/// `x * 2^32 mod P` for the field value `x`. Addition and subtraction are
/// those of the canonical form; multiplication needs a Montgomery reduction.
#[derive(Copy, Clone, Debug, PartialEq, Eq, Structural, Hash)]
pub struct MontyBabyBear {
    value: u32,
}

/// The Montgomery constants fit together: `R * R^-1 = 1 mod P` and
/// `P * MU = 1 mod 2^32`.
proof fn lemma_monty_constants()
    ensures
        fmul(MONTY_R as int, MONTY_R_INV as int) == 1,
        (P as int * MONTY_MU as int) % (MONTY_R as int) == 1,
{
    assert(MONTY_R as int * MONTY_R_INV as int == 4053239664633446400);
    assert(4053239664633446400int == 2013265921 * 2013265919 + 1);
    lemma_mod_multiples_vanish(2013265919, 1, P as int);
    lemma_modp_small(1);
    assert(P as int * MONTY_MU as int == 4593671624212873217);
    assert(4593671624212873217int == 4294967296 * 1069547521 + 1);
    lemma_mod_multiples_vanish(1069547521, 1, MONTY_R as int);
}

/// Montgomery reduction: for `x < P * 2^32`, a value below `P` congruent to
/// `x * R^-1`.
pub fn monty_reduce(x: u64) -> (r: u32)
    requires
        x < P as int * MONTY_R as int,
    ensures
        r < P,
        r as int == modp(x as int * MONTY_R_INV as int),
{
    let lo: u64 = x & 0xffff_ffff;
    proof {
        assert(lo < 0x1_0000_0000) by (bit_vector)
            requires
                lo == x & 0xffff_ffff,
        ;
        lemma_mul_upper_bound(lo as int, 0xffff_ffff, MONTY_MU as int, MONTY_MU as int);
    }
    let m: u64 = lo * (MONTY_MU as u64);
    let t: u64 = m & 0xffff_ffff;
    proof {
        assert(t < 0x1_0000_0000) by (bit_vector)
            requires
                t == m & 0xffff_ffff,
        ;
        lemma_mul_upper_bound(t as int, 0xffff_ffff, P as int, P as int);
    }
    let u: u64 = t * P_U64;
    proof {
        // The low 32 bits of `u` equal those of `x`.
        assert(u & 0xffff_ffff == x & 0xffff_ffff) by (bit_vector)
            requires
                lo == x & 0xffff_ffff,
                m == lo * 0x88000001u64,
                t == m & 0xffff_ffff,
                u == t * 2013265921u64,
        ;
        assert(x & 0xffff_ffff == x % 0x1_0000_0000) by (bit_vector);
        assert(u & 0xffff_ffff == u % 0x1_0000_0000) by (bit_vector);
    }
    let r: u32;
    if x >= u {
        let d = x - u;
        proof {
            assert(d % 0x1_0000_0000 == 0) by {
                vstd::arithmetic::div_mod::lemma_sub_mod_noop(x as int, u as int, 0x1_0000_0000);
                vstd::arithmetic::div_mod::lemma_small_mod(0, 0x1_0000_0000);
            }
            assert(d >> 32 == d / 0x1_0000_0000) by (bit_vector);
            lemma_fundamental_div_mod(d as int, 0x1_0000_0000);
            assert(d / 0x1_0000_0000 < P) by {
                vstd::arithmetic::div_mod::lemma_div_is_ordered(d as int, x as int, 0x1_0000_0000);
                vstd::arithmetic::div_mod::lemma_div_by_multiple_is_strongly_ordered(
                    x as int, P as int * 0x1_0000_0000, P as int, 0x1_0000_0000);
            }
            lemma_reduce_correct(x as int, t as int, (d / 0x1_0000_0000) as int, 0);
        }
        r = (d >> 32) as u32;
    } else {
        let d = u - x;
        proof {
            assert(d % 0x1_0000_0000 == 0) by {
                vstd::arithmetic::div_mod::lemma_sub_mod_noop(u as int, x as int, 0x1_0000_0000);
                vstd::arithmetic::div_mod::lemma_small_mod(0, 0x1_0000_0000);
            }
            assert(d >> 32 == d / 0x1_0000_0000) by (bit_vector);
            lemma_fundamental_div_mod(d as int, 0x1_0000_0000);
            assert(d / 0x1_0000_0000 < P) by {
                vstd::arithmetic::div_mod::lemma_div_is_ordered(d as int, u as int, 0x1_0000_0000);
                lemma_mul_strict_inequality(t as int, 0x1_0000_0000, P as int);
                vstd::arithmetic::mul::lemma_mul_is_commutative(t as int, P as int);
                vstd::arithmetic::div_mod::lemma_div_by_multiple_is_strongly_ordered(
                    u as int, P as int * 0x1_0000_0000, P as int, 0x1_0000_0000);
            }
            assert(d / 0x1_0000_0000 > 0) by {
                vstd::arithmetic::div_mod::lemma_div_pos_is_pos(d as int, 0x1_0000_0000);
            }
            lemma_reduce_correct(x as int, t as int, -(d / 0x1_0000_0000) + P, 1);
        }
        r = P - (d >> 32) as u32;
    }
    r
}

/// If `x - t P = (q - k P) 2^32` and `q` is canonical, then `q = x R^-1 mod P`.
proof fn lemma_reduce_correct(x: int, t: int, q: int, k: int)
    requires
        0 <= q < P,
        x - t * P == (q - k * P) * 0x1_0000_0000,
    ensures
        q == modp(x * MONTY_R_INV as int),
{
    let ri = MONTY_R_INV as int;
    let rr = MONTY_R as int;
    lemma_monty_constants();
    // x R^-1 = (q - kP) R R^-1 + t P R^-1, so x R^-1 = q (R R^-1) mod P.
    assert(x * ri == q * (rr * ri) + P * (t * ri - k * (rr * ri))) by (nonlinear_arith)
        requires
            x - t * P == (q - k * P) * rr,
    ;
    lemma_mod_multiples_vanish(t * ri - k * (rr * ri), q * (rr * ri), P as int);
    lemma_fmul_noop(q, rr * ri);
    lemma_modp_small(q);
}

/// The Montgomery representative of the field value `x`: `x * R mod P`.
pub open spec fn encode(x: int) -> int {
    fmul(x, MONTY_R as int)
}

/// Decoding undoes encoding, and the operations on representatives agree
/// with the field operations on the values they stand for: addition,
/// subtraction and negation act on representatives as on canonical values,
/// and Montgomery reduction of a product of representatives represents the
/// product of the values.
pub proof fn lemma_representation_equivalence(x: int, u: int, v: int)
    requires
        0 <= x < P,
    ensures
        decode(encode(x)) == x,
        decode(fadd(u, v)) == fadd(decode(u), decode(v)),
        decode(fsub(u, v)) == fsub(decode(u), decode(v)),
        decode(fneg(u)) == fneg(decode(u)),
        decode(modp(u * v * MONTY_R_INV as int)) == fmul(decode(u), decode(v)),
{
    let ri = MONTY_R_INV as int;
    let rr = MONTY_R as int;
    lemma_monty_constants();
    // decode(encode(x)) = x R R^-1 = x.
    lemma_fmul_noop(x * rr, ri);
    lemma_mul_is_associative(x, rr, ri);
    lemma_fmul_noop(x, rr * ri);
    lemma_modp_small(x);
    // Linearity of multiplication by R^-1.
    crate::field::lemma_fmul_commutative(fadd(u, v), ri);
    crate::field::lemma_fmul_distributive(ri, u, v);
    crate::field::lemma_fmul_commutative(u, ri);
    crate::field::lemma_fmul_commutative(v, ri);
    lemma_fmul_noop(u + v, ri);
    lemma_fsub_linear(u, v, ri);
    lemma_fsub_linear(0, u, ri);
    lemma_fmul_noop(0, ri);
    lemma_modp_small(0);
    // decode(u v R^-1) = (u R^-1)(v R^-1).
    lemma_fmul_noop(u * v * ri, ri);
    lemma_fmul_noop(u * ri, v * ri);
    assert(u * v * ri * ri == (u * ri) * (v * ri)) by (nonlinear_arith);
}

proof fn lemma_fsub_linear(u: int, v: int, c: int)
    ensures
        fmul(fsub(u, v), c) == fsub(fmul(u, c), fmul(v, c)),
{
    lemma_fmul_noop(u - v, c);
    vstd::arithmetic::mul::lemma_mul_is_distributive_sub_other_way(c, u, v);
    crate::field::lemma_fsub_noop(u * c, v * c);
    assert(fneg(0) == 0) by {
        lemma_modp_small(0);
    }
}

impl View for MontyBabyBear {
    type V = int;

    /// The field value that the element stands for.
    closed spec fn view(&self) -> int {
        decode(self.value as int)
    }
}

impl MontyBabyBear {
    #[verifier::type_invariant]
    spec fn canonical(self) -> bool {
        self.value < P
    }

    /// Converts from canonical form: multiplies by `R` modulo `P`.
    pub fn from_base(x: BabyBear) -> (r: Self)
        ensures
            r@ == x@,
    {
        let v = x.as_canonical_u32();
        proof {
            lemma_representation_equivalence(v as int, 0, 0);
            lemma_modp_bound(v * MONTY_R as int);
            assert(v as int * MONTY_R as int <= u64::MAX) by (nonlinear_arith)
                requires
                    v < P,
            ;
        }
        MontyBabyBear { value: ((v as u64 * MONTY_R) % P_U64) as u32 }
    }

    /// Converts to canonical form: one Montgomery reduction.
    pub fn to_base(self) -> (r: BabyBear)
        ensures
            r@ == self@,
    {
        proof {
            use_type_invariant(self);
            lemma_mul_strict_inequality(self.value as int, P as int, MONTY_R as int);
        }
        BabyBear::from_canonical_u32(monty_reduce(self.value as u64))
    }

    pub fn zero() -> (r: Self)
        ensures
            r@ == 0,
    {
        MontyBabyBear::from_base(BabyBear::zero())
    }

    pub fn one() -> (r: Self)
        ensures
            r@ == 1,
    {
        MontyBabyBear::from_base(BabyBear::one())
    }

    pub fn square(&self) -> (r: Self)
        ensures
            r@ == fmul(self@, self@),
    {
        *self * *self
    }
}

impl Add for MontyBabyBear {
    type Output = Self;

    fn add(self, rhs: Self) -> (r: Self)
        ensures
            r@ == fadd(self@, rhs@),
    {
        proof {
            use_type_invariant(self);
            use_type_invariant(rhs);
            lemma_representation_equivalence(0, self.value as int, rhs.value as int);
        }
        let sum = self.value + rhs.value;
        if sum >= P {
            proof {
                lemma_mod_sub_once(sum as int);
            }
            MontyBabyBear { value: sum - P }
        } else {
            proof {
                lemma_modp_small(sum as int);
            }
            MontyBabyBear { value: sum }
        }
    }
}

impl vstd::std_specs::ops::AddSpecImpl for MontyBabyBear {
    open spec fn obeys_add_spec() -> bool {
        false
    }

    open spec fn add_req(self, rhs: Self) -> bool {
        true
    }

    open spec fn add_spec(self, rhs: Self) -> Self {
        self
    }
}

impl Sub for MontyBabyBear {
    type Output = Self;

    fn sub(self, rhs: Self) -> (r: Self)
        ensures
            r@ == fsub(self@, rhs@),
    {
        proof {
            use_type_invariant(self);
            use_type_invariant(rhs);
            lemma_representation_equivalence(0, self.value as int, rhs.value as int);
        }
        if self.value < rhs.value {
            proof {
                lemma_mod_sub_once(self.value - rhs.value + 2 * P);
                vstd::arithmetic::div_mod::lemma_mod_add_multiples_vanish(
                    self.value - rhs.value,
                    P as int,
                );
            }
            MontyBabyBear { value: self.value + (P - rhs.value) }
        } else {
            proof {
                lemma_modp_small(self.value - rhs.value);
            }
            MontyBabyBear { value: self.value - rhs.value }
        }
    }
}

impl vstd::std_specs::ops::SubSpecImpl for MontyBabyBear {
    open spec fn obeys_sub_spec() -> bool {
        false
    }

    open spec fn sub_req(self, rhs: Self) -> bool {
        true
    }

    open spec fn sub_spec(self, rhs: Self) -> Self {
        self
    }
}

impl Neg for MontyBabyBear {
    type Output = Self;

    fn neg(self) -> (r: Self)
        ensures
            r@ == fneg(self@),
    {
        proof {
            crate::field::lemma_fsub_noop(0, 0);
            lemma_modp_small(0);
            crate::field::lemma_fsub_noop(0, self@);
        }
        MontyBabyBear::zero() - self
    }
}

impl vstd::std_specs::ops::NegSpecImpl for MontyBabyBear {
    open spec fn obeys_neg_spec() -> bool {
        false
    }

    open spec fn neg_req(self) -> bool {
        true
    }

    open spec fn neg_spec(self) -> Self {
        self
    }
}

impl Mul for MontyBabyBear {
    type Output = Self;

    /// Multiplies the representatives and removes one factor of `R` by
    /// Montgomery reduction, with no division.
    fn mul(self, rhs: Self) -> (r: Self)
        ensures
            r@ == fmul(self@, rhs@),
    {
        proof {
            use_type_invariant(self);
            use_type_invariant(rhs);
            lemma_representation_equivalence(0, self.value as int, rhs.value as int);
            let (a, b) = (self.value as int, rhs.value as int);
            assert(a * b < P as int * MONTY_R as int) by (nonlinear_arith)
                requires
                    0 <= a < P,
                    0 <= b < P,
            ;
        }
        let product = (self.value as u64) * (rhs.value as u64);
        MontyBabyBear { value: monty_reduce(product) }
    }
}

impl vstd::std_specs::ops::MulSpecImpl for MontyBabyBear {
    open spec fn obeys_mul_spec() -> bool {
        false
    }

    open spec fn mul_req(self, rhs: Self) -> bool {
        true
    }

    open spec fn mul_spec(self, rhs: Self) -> Self {
        self
    }
}

} // verus!
