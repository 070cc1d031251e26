//! The BabyBear field element in canonical form.
use crate::field::{
    fadd, fmul, fneg, fpow, fsub, lemma_fmul_noop, lemma_fpow_adds, lemma_fpow_multiplies,
    lemma_fpow_pow2_step, lemma_fpow_small, lemma_mod_sub_once, lemma_modp_bound, lemma_modp_small,
    lemma_square_multiply_step, modp, P, P_U64, TWO_ADICITY,
};
use vstd::arithmetic::mul::lemma_mul_upper_bound;
use vstd::arithmetic::power::pow;
use vstd::arithmetic::power2::{lemma2_to64, pow2};
use core::ops::{Add, AddAssign, Div, Mul, MulAssign, Neg, Sub, SubAssign};
use vstd::prelude::*;

verus! {

/// An element of `F_p`, held as its canonical representative in `[0, P)`.
#[derive(Copy, Clone, Debug, PartialEq, Eq, Structural, PartialOrd, Ord, Hash)]
pub struct BabyBear {
    value: u32,
}

impl View for BabyBear {
    type V = int;

    closed spec fn view(&self) -> int {
        self.value as int
    }
}

impl BabyBear {
    #[verifier::type_invariant]
    spec fn canonical(self) -> bool {
        self.value < P
    }

    /// Creates an element from a `u32`, reducing it modulo `P`.
    pub fn new(n: u32) -> (r: Self)
        ensures
            r@ == modp(n as int),
    {
        BabyBear { value: n % P }
    }

    /// The canonical representative as a `u32`.
    pub fn as_canonical_u32(&self) -> (r: u32)
        ensures
            r == self@,
            r < P,
    {
        proof {
            use_type_invariant(self);
        }
        self.value
    }
}

/// The generator of the subgroup of order `2^27`, in canonical form.
pub const TWO_ADIC_BASE: u32 = 0x1a427a41;

/// Sum of the first `n` weights.
pub open spec fn weight_sum(u: Seq<u64>, n: nat) -> int
    decreases n,
{
    if n == 0 || n > u.len() {
        0
    } else {
        weight_sum(u, (n - 1) as nat) + u[n - 1]
    }
}

/// Sum of `u[i] * v[i]` over the first `n` indices, over the integers.
pub open spec fn dot_prefix(u: Seq<u64>, v: Seq<BabyBear>, n: nat) -> int
    decreases n,
{
    if n == 0 || n > u.len() || n > v.len() {
        0
    } else {
        dot_prefix(u, v, (n - 1) as nat) + u[n - 1] * v[n - 1]@
    }
}

proof fn lemma_weight_sum_monotonic(u: Seq<u64>, i: nat, n: nat)
    requires
        i <= n <= u.len(),
    ensures
        weight_sum(u, i) <= weight_sum(u, n),
    decreases n - i,
{
    if i < n {
        lemma_weight_sum_monotonic(u, i, (n - 1) as nat);
    }
}

impl BabyBear {
    /// The field's modulus.
    pub const ORDER_U32: u32 = P;

    /// The field's modulus as a `u64`.
    pub const ORDER_U64: u64 = P_U64;

    /// The largest `k` such that `2^k` divides `P - 1`.
    pub const TWO_ADICITY: usize = TWO_ADICITY;

    /// The canonical representative as a `u64`.
    pub fn as_canonical_u64(&self) -> (r: u64)
        ensures
            r == self@,
            r < P,
    {
        self.as_canonical_u32() as u64
    }

    pub fn zero() -> (r: Self)
        ensures
            r@ == 0,
    {
        BabyBear { value: 0 }
    }

    pub fn one() -> (r: Self)
        ensures
            r@ == 1,
    {
        BabyBear { value: 1 }
    }

    pub fn two() -> (r: Self)
        ensures
            r@ == 2,
    {
        BabyBear { value: 2 }
    }

    /// The element `-1`, that is `P - 1`.
    pub fn neg_one() -> (r: Self)
        ensures
            r@ == P - 1,
    {
        BabyBear { value: 0x78000000 }
    }

    /// A generator of the multiplicative group, `31`.
    pub fn generator() -> (r: Self)
        ensures
            r@ == 31,
    {
        BabyBear::from_canonical_u32(0x1f)
    }

    /// The element itself: the field is its own prime subfield.
    pub fn from_f(f: Self) -> (r: Self)
        ensures
            r == f,
    {
        f
    }

    pub fn from_bool(b: bool) -> (r: Self)
        ensures
            r@ == (if b { 1int } else { 0int }),
    {
        BabyBear::from_canonical_u32(if b { 1 } else { 0 })
    }

    pub fn from_canonical_u8(n: u8) -> (r: Self)
        ensures
            r@ == n,
    {
        BabyBear::from_canonical_u32(n as u32)
    }

    pub fn from_canonical_u16(n: u16) -> (r: Self)
        ensures
            r@ == n,
    {
        BabyBear::from_canonical_u32(n as u32)
    }

    /// Creates an element from an integer that is already below `P`.
    pub fn from_canonical_u32(n: u32) -> (r: Self)
        requires
            n < P,
        ensures
            r@ == n,
    {
        BabyBear { value: n }
    }

    pub fn from_canonical_u64(n: u64) -> (r: Self)
        requires
            n < P,
        ensures
            r@ == n,
    {
        BabyBear::from_canonical_u32(n as u32)
    }

    pub fn from_canonical_usize(n: usize) -> (r: Self)
        requires
            n < P,
        ensures
            r@ == n,
    {
        BabyBear::from_canonical_u32(n as u32)
    }

    /// Reduces any `u32` modulo `P`.
    pub fn from_wrapped_u32(n: u32) -> (r: Self)
        ensures
            r@ == modp(n as int),
    {
        BabyBear::new(n)
    }

    /// Reduces any `u64` modulo `P`.
    pub fn from_wrapped_u64(n: u64) -> (r: Self)
        ensures
            r@ == modp(n as int),
    {
        proof {
            lemma_modp_bound(n as int);
        }
        BabyBear { value: (n % P_U64) as u32 }
    }

    /// Turns 32 random bits into an element, or rejects them. The top bit is
    /// dropped; the remaining 31-bit value is accepted exactly when it is below
    /// `P`, so that accepted values are uniform over the field.
    pub fn sample_candidate(bits: u32) -> (r: Option<Self>)
        ensures
            (bits & 0x7fff_ffff) < P ==> r is Some && r.unwrap()@ == (bits & 0x7fff_ffff),
            (bits & 0x7fff_ffff) >= P ==> r is None,
    {
        let next_u31 = bits & 0x7fff_ffff;
        if next_u31 < P {
            proof {
                lemma_modp_small(next_u31 as int);
            }
            Some(BabyBear { value: next_u31 })
        } else {
            None
        }
    }

    pub fn square(&self) -> (r: Self)
        ensures
            r@ == fmul(self@, self@),
    {
        *self * *self
    }

    /// Raises the element to the power `2^power_log` by repeated squaring.
    pub fn exp_power_of_2(&self, power_log: usize) -> (r: Self)
        ensures
            r@ == fpow(self@, pow2(power_log as nat)),
    {
        proof {
            use_type_invariant(self);
            lemma_fpow_small(self@);
            lemma2_to64();
        }
        let mut res = *self;
        let mut i: usize = 0;
        while i < power_log
            invariant
                i <= power_log,
                res@ == fpow(self@, pow2(i as nat)),
            decreases power_log - i,
        {
            proof {
                lemma_fpow_pow2_step(self@, i as nat);
            }
            res = res.square();
            i = i + 1;
        }
        res
    }

    /// Raises the element to the power `power` by square-and-multiply.
    pub fn exp_u64(&self, power: u64) -> (r: Self)
        ensures
            r@ == fpow(self@, power as nat),
    {
        let mut acc = BabyBear::one();
        let mut x = *self;
        let mut n = power;
        proof {
            use_type_invariant(self);
            lemma_fpow_small(1);
            lemma_fmul_noop(1, fpow(self@, power as nat));
            lemma_modp_small(fpow(self@, power as nat));
            lemma_modp_bound(pow(self@, power as nat));
        }
        while n != 0
            invariant
                0 <= acc@ < P,
                fmul(acc@, fpow(x@, n as nat)) == fpow(self@, power as nat),
            decreases n,
        {
            proof {
                use_type_invariant(acc);
                lemma_square_multiply_step(acc@, x@, n as nat);
            }
            if n % 2 == 1 {
                acc = acc * x;
            }
            proof {
                use_type_invariant(acc);
            }
            n = n / 2;
            x = x.square();
        }
        proof {
            use_type_invariant(x);
            lemma_fpow_small(x@);
            lemma_modp_small(acc@);
        }
        acc
    }

    /// Multiplies the element by `2^exp`.
    pub fn mul_2exp_u64(&self, exp: u64) -> (r: Self)
        ensures
            r@ == fmul(self@, fpow(2, exp as nat)),
    {
        *self * BabyBear::two().exp_u64(exp)
    }

    /// The multiplicative inverse, computed as `self^(P - 2)`, or `None` for zero.
    pub fn try_inverse(&self) -> (r: Option<Self>)
        ensures
            self@ == 0 <==> r is None,
            r is Some ==> r.unwrap()@ == fpow(self@, (P - 2) as nat),
            r is Some ==> fmul(r.unwrap()@, self@) == 1,
    {
        if self.value == 0 {
            return None;
        }
        proof {
            use_type_invariant(self);
            crate::fermat::lemma_inverse(self@);
        }
        // P - 2 = 0b1110111111111111111111111111111: 30 squarings and 7 multiplications.
        let ghost a = self@;
        proof {
            use_type_invariant(self);
            lemma_fpow_small(a);
            lemma2_to64();
        }
        let p1 = *self;
        let p100000000 = p1.exp_power_of_2(8);
        proof { lemma_fpow_adds(a, 256, 1); }
        let p100000001 = p100000000 * p1;
        proof { lemma_fpow_multiplies(a, 256, 256); }
        let p10000000000000000 = p100000000.exp_power_of_2(8);
        proof { lemma_fpow_adds(a, 65536, 257); }
        let p10000000100000001 = p10000000000000000 * p100000001;
        proof { lemma_fpow_multiplies(a, 65793, 8); }
        let p10000000100000001000 = p10000000100000001.exp_power_of_2(3);
        proof { lemma_fpow_multiplies(a, 526344, 32); }
        let p1000000010000000100000000 = p10000000100000001000.exp_power_of_2(5);
        proof { lemma_fpow_adds(a, 16843008, 1); }
        let p1000000010000000100000001 = p1000000010000000100000000 * p1;
        proof { lemma_fpow_adds(a, 16843009, 526344); }
        let p1000010010000100100001001 = p1000000010000000100000001 * p10000000100000001000;
        proof { lemma_fpow_adds(a, 16843009, 16843009); }
        let p10000000100000001000000010 = p1000000010000000100000001.square();
        proof { lemma_fpow_adds(a, 33686018, 17369353); }
        let p11000010110000101100001011 = p10000000100000001000000010
            * p1000010010000100100001001;
        proof { lemma_fpow_adds(a, 33686018, 33686018); }
        let p100000001000000010000000100 = p10000000100000001000000010.square();
        proof { lemma_fpow_adds(a, 67372036, 51055371); }
        let p111000011110000111100001111 = p100000001000000010000000100
            * p11000010110000101100001011;
        proof { lemma_fpow_multiplies(a, 118427407, 16); }
        let p1110000111100001111000011110000 = p111000011110000111100001111.exp_power_of_2(4);
        proof { lemma_fpow_adds(a, 1894838512, 118427407); }
        let p1110111111111111111111111111111 = p1110000111100001111000011110000
            * p111000011110000111100001111;
        Some(p1110111111111111111111111111111)
    }

    /// The multiplicative inverse of a nonzero element.
    pub fn inverse(&self) -> (r: Self)
        requires
            self@ != 0,
        ensures
            r@ == fpow(self@, (P - 2) as nat),
            fmul(r@, self@) == 1,
    {
        self.try_inverse().unwrap()
    }

    /// `sum(u[i] * v[i]) mod P`, accumulated in 64 bits; the weights must sum
    /// to at most `2^32` so that the accumulator cannot overflow.
    pub fn linear_combination_u64<const N: usize>(u: [u64; N], v: &[Self; N]) -> (r: Self)
        requires
            weight_sum(u@, N as nat) <= 0x1_0000_0000,
        ensures
            r@ == modp(dot_prefix(u@, v@, N as nat)),
    {
        let mut dot: u64 = 0;
        let mut i: usize = 0;
        while i < N
            invariant
                i <= N,
                u@.len() == N,
                v@.len() == N,
                weight_sum(u@, N as nat) <= 0x1_0000_0000,
                dot == dot_prefix(u@, v@, i as nat),
                dot <= weight_sum(u@, i as nat) * (P - 1),
            decreases N - i,
        {
            let vi = v[i].as_canonical_u64();
            proof {
                lemma_weight_sum_monotonic(u@, (i + 1) as nat, N as nat);
                let ws = weight_sum(u@, i as nat);
                let ui = u[i as int] as int;
                assert(weight_sum(u@, (i + 1) as nat) == ws + ui);
                assert(dot + ui * vi <= (ws + ui) * (P - 1) <= 0x1_0000_0000 * (P - 1))
                    by (nonlinear_arith)
                    requires
                        dot <= ws * (P - 1),
                        vi <= P - 1,
                        ws + ui <= 0x1_0000_0000,
                        0 <= ui,
                ;
            }
            dot = dot + u[i] * vi;
            i = i + 1;
        }
        proof {
            lemma_modp_bound(dot as int);
        }
        BabyBear { value: (dot % P_U64) as u32 }
    }

    /// A generator of the subgroup of order `2^bits`: the fixed generator of
    /// the subgroup of order `2^27` raised to `2^(27 - bits)`.
    pub fn two_adic_generator(bits: usize) -> (r: Self)
        requires
            bits <= TWO_ADICITY,
        ensures
            r@ == fpow(TWO_ADIC_BASE as int, pow2((TWO_ADICITY - bits) as nat)),
    {
        let base = BabyBear::from_canonical_u32(TWO_ADIC_BASE);
        base.exp_power_of_2(TWO_ADICITY - bits)
    }
}

impl Default for BabyBear {
    fn default() -> (r: Self)
        ensures
            r@ == 0,
    {
        BabyBear::zero()
    }
}

impl Add for BabyBear {
    type Output = Self;

    fn add(self, rhs: Self) -> (r: Self)
        ensures
            r@ == fadd(self@, rhs@),
    {
        proof {
            use_type_invariant(self);
            use_type_invariant(rhs);
        }
        let sum = self.value + rhs.value;
        if sum >= P {
            proof {
                lemma_mod_sub_once(sum as int);
            }
            BabyBear { value: sum - P }
        } else {
            proof {
                lemma_modp_small(sum as int);
            }
            BabyBear { value: sum }
        }
    }
}

impl vstd::std_specs::ops::AddSpecImpl for BabyBear {
    open spec fn obeys_add_spec() -> bool {
        false
    }

    open spec fn add_req(self, rhs: Self) -> bool {
        true
    }

    open spec fn add_spec(self, rhs: Self) -> Self {
        self
    }
}

impl Sub for BabyBear {
    type Output = Self;

    fn sub(self, rhs: Self) -> (r: Self)
        ensures
            r@ == fsub(self@, rhs@),
    {
        proof {
            use_type_invariant(self);
            use_type_invariant(rhs);
        }
        if self.value < rhs.value {
            proof {
                lemma_mod_sub_once(self@ - rhs@ + 2 * P);
                vstd::arithmetic::div_mod::lemma_mod_add_multiples_vanish(self@ - rhs@, P as int);
            }
            BabyBear { value: self.value + (P - rhs.value) }
        } else {
            proof {
                lemma_modp_small(self@ - rhs@);
            }
            BabyBear { value: self.value - rhs.value }
        }
    }
}

impl vstd::std_specs::ops::SubSpecImpl for BabyBear {
    open spec fn obeys_sub_spec() -> bool {
        false
    }

    open spec fn sub_req(self, rhs: Self) -> bool {
        true
    }

    open spec fn sub_spec(self, rhs: Self) -> Self {
        self
    }
}

impl Neg for BabyBear {
    type Output = Self;

    fn neg(self) -> (r: Self)
        ensures
            r@ == fneg(self@),
    {
        BabyBear::zero() - self
    }
}

impl vstd::std_specs::ops::NegSpecImpl for BabyBear {
    open spec fn obeys_neg_spec() -> bool {
        false
    }

    open spec fn neg_req(self) -> bool {
        true
    }

    open spec fn neg_spec(self) -> Self {
        self
    }
}

impl Mul for BabyBear {
    type Output = Self;

    fn mul(self, rhs: Self) -> (r: Self)
        ensures
            r@ == fmul(self@, rhs@),
    {
        proof {
            use_type_invariant(self);
            use_type_invariant(rhs);
            lemma_mul_upper_bound(self@, P as int, rhs@, P as int);
            lemma_modp_bound(self@ * rhs@);
        }
        let product = (self.value as u64) * (rhs.value as u64);
        BabyBear { value: (product % P_U64) as u32 }
    }
}

impl vstd::std_specs::ops::MulSpecImpl for BabyBear {
    open spec fn obeys_mul_spec() -> bool {
        false
    }

    open spec fn mul_req(self, rhs: Self) -> bool {
        true
    }

    open spec fn mul_spec(self, rhs: Self) -> Self {
        self
    }
}

impl Div for BabyBear {
    type Output = Self;

    fn div(self, rhs: Self) -> (r: Self)
        ensures
            r@ == fmul(self@, fpow(rhs@, (P - 2) as nat)),
    {
        self * rhs.inverse()
    }
}

impl vstd::std_specs::ops::DivSpecImpl for BabyBear {
    open spec fn obeys_div_spec() -> bool {
        false
    }

    open spec fn div_req(self, rhs: Self) -> bool {
        rhs@ != 0
    }

    open spec fn div_spec(self, rhs: Self) -> Self {
        self
    }
}

impl AddAssign for BabyBear {
    fn add_assign(&mut self, rhs: Self)
        ensures
            final(self)@ == fadd(old(self)@, rhs@),
    {
        *self = *self + rhs;
    }
}

impl SubAssign for BabyBear {
    fn sub_assign(&mut self, rhs: Self)
        ensures
            final(self)@ == fsub(old(self)@, rhs@),
    {
        *self = *self - rhs;
    }
}

impl MulAssign for BabyBear {
    fn mul_assign(&mut self, rhs: Self)
        ensures
            final(self)@ == fmul(old(self)@, rhs@),
    {
        *self = *self * rhs;
    }
}

} // verus!
