//! The BabyBear field and its degree-four extension, with elements held in
//! canonical form.
use crate::field::{
    fadd, fmul, fneg, fpow, fsub, lemma_fmul_noop, lemma_fadd_noop, lemma_fpow_small,
    lemma_mod_sub_once, lemma_modp_bound, lemma_modp_small, lemma_square_multiply_step, modp, P,
    P_U64,
};
use crate::quartic::{
    embed, ext_add, ext_inv_with, ext_mul, ext_neg, ext_norm, ext_pow, ext_scale, ext_sub,
    lemma_ext_mul_by_field_ops, lemma_ext_mul_canonical, lemma_ext_mul_one,
    lemma_ext_pow_canonical, lemma_ext_square_multiply_step, Quad, BETA,
};
use crate::rng::next_u32;
use core::ops::{Add, AddAssign, Mul, MulAssign, Neg, Sub, SubAssign};
use rand::rngs::SmallRng;
use vstd::prelude::*;

verus! {

/// Names the BabyBear field whose elements are [`Elem`] and whose degree-four
/// extension elements are [`ExtElem`].
pub struct BabyBearCanonical;

/// The number of `u32` words that hold one [`Elem`].
pub const WORDS: usize = 1;

/// An element of `F_p`, `p = 15 * 2^27 + 1`, held as its canonical
/// representative in `[0, P)`.
#[derive(Copy, Clone, Debug, PartialEq, Eq, Structural, PartialOrd, Ord, Hash)]
pub struct Elem(u32);

/// Alias for the BabyBear [`Elem`].
pub type BabyBearElem = Elem;

impl View for Elem {
    type V = int;

    closed spec fn view(&self) -> int {
        self.0 as int
    }
}

/// `sum(w[i] * 2^(32 * (n - 1 - i)))` over the first `n` words: the words read
/// as one big-endian number.
pub open spec fn words_value(w: Seq<u32>, n: nat) -> int
    decreases n,
{
    if n == 0 || n > w.len() {
        0
    } else {
        words_value(w, (n - 1) as nat) * 0x1_0000_0000 + w[n - 1]
    }
}

fn add(lhs: u32, rhs: u32) -> (r: u32)
    requires
        lhs < P,
        rhs < P,
    ensures
        r == fadd(lhs as int, rhs as int),
{
    let x = lhs + rhs;
    if x >= P {
        proof {
            lemma_mod_sub_once(x as int);
        }
        x - P
    } else {
        proof {
            lemma_modp_small(x as int);
        }
        x
    }
}

fn sub(lhs: u32, rhs: u32) -> (r: u32)
    requires
        lhs < P,
        rhs < P,
    ensures
        r == fsub(lhs as int, rhs as int),
{
    let x = lhs.wrapping_sub(rhs);
    if x > P {
        proof {
            lemma_mod_sub_once(lhs - rhs + 2 * P);
            vstd::arithmetic::div_mod::lemma_mod_add_multiples_vanish(lhs - rhs, P as int);
        }
        x.wrapping_add(P)
    } else {
        proof {
            lemma_modp_small(lhs - rhs);
        }
        x
    }
}

fn mul(lhs: u32, rhs: u32) -> (r: u32)
    ensures
        r == fmul(lhs as int, rhs as int),
{
    crate::mul(lhs, rhs)
}

impl Elem {
    #[verifier::type_invariant]
    spec fn canonical(self) -> bool {
        self.0 < P
    }

    /// The element zero.
    pub fn zero() -> (r: Self)
        ensures
            r@ == 0,
    {
        Elem(0)
    }

    /// The element one.
    pub fn one() -> (r: Self)
        ensures
            r@ == 1,
    {
        Elem(1)
    }

    /// The number of `u32` words that hold one element.
    pub const WORDS: usize = WORDS;

    /// Creates an element from a raw integer, reducing it modulo `P`.
    pub fn new(x: u32) -> (r: Self)
        ensures
            r@ == modp(x as int),
    {
        proof {
            lemma_modp_bound(x as int);
        }
        Elem(x % P)
    }

    /// The canonical representative.
    pub fn as_u32(&self) -> (r: u32)
        ensures
            r == self@,
            r < P,
    {
        proof {
            use_type_invariant(self);
        }
        self.0
    }

    /// Reduces a `u64` modulo `P`.
    pub fn from_u64(val: u64) -> (r: Self)
        ensures
            r@ == modp(val as int),
    {
        proof {
            lemma_modp_bound(val as int);
        }
        Elem((val % P_U64) as u32)
    }

    /// Raises the element to the power `n` by square-and-multiply.
    pub fn pow(self, n: usize) -> (r: Self)
        ensures
            r@ == fpow(self@, n as nat),
    {
        let mut tot = Elem(1);
        let mut x = self;
        let mut n_left = n;
        proof {
            use_type_invariant(self);
            lemma_fpow_small(1);
            lemma_fmul_noop(1, fpow(self@, n as nat));
            lemma_modp_bound(vstd::arithmetic::power::pow(self@, n as nat));
            lemma_modp_small(fpow(self@, n as nat));
        }
        while n_left != 0
            invariant
                0 <= tot@ < P,
                fmul(tot@, fpow(x@, n_left as nat)) == fpow(self@, n as nat),
            decreases n_left,
        {
            proof {
                lemma_square_multiply_step(tot@, x@, n_left as nat);
            }
            if n_left % 2 == 1 {
                tot = tot * x;
            }
            proof {
                use_type_invariant(tot);
            }
            n_left = n_left / 2;
            x = x * x;
        }
        proof {
            use_type_invariant(x);
            lemma_fpow_small(x@);
            lemma_modp_small(tot@);
        }
        tot
    }

    /// The multiplicative inverse, `self^(P - 2)`, or `None` for zero.
    pub fn inv(self) -> (r: Option<Self>)
        ensures
            self@ == 0 <==> r is None,
            r is Some ==> r.unwrap()@ == fpow(self@, (P - 2) as nat),
            r is Some ==> fmul(r.unwrap()@, self@) == 1,
    {
        if self.0 == 0 {
            None
        } else {
            proof {
                use_type_invariant(self);
                crate::fermat::lemma_inverse(self@);
            }
            Some(self.pow((P - 2) as usize))
        }
    }

    /// Reads the words as one big-endian number and reduces it modulo `P`.
    /// Six random words give an element whose distance from uniform is below
    /// `2^-161`, with no rejection loop.
    pub fn from_random_words(words: &[u32; 6]) -> (r: Self)
        ensures
            r@ == modp(words_value(words@, 6)),
    {
        let mut val: u64 = 0;
        let mut i: usize = 0;
        while i < 6
            invariant
                i <= 6,
                words@.len() == 6,
                val < P,
                val == modp(words_value(words@, i as nat)),
            decreases 6 - i,
        {
            let w = words[i];
            proof {
                let h = words_value(words@, i as nat);
                assert(words_value(words@, (i + 1) as nat) == h * 0x1_0000_0000 + w);
                lemma_fadd_noop(h * 0x1_0000_0000, w as int);
                lemma_fmul_noop(h, 0x1_0000_0000);
                lemma_fadd_noop(modp(h) * 0x1_0000_0000, w as int);
                lemma_modp_bound(val * 0x1_0000_0000 + w);
            }
            val = val * 0x1_0000_0000 + w as u64;
            val = val % P_U64;
            i = i + 1;
        }
        Elem(val as u32)
    }

    /// Draws an element from the generator: six words, combined by
    /// [`Elem::from_random_words`].
    pub fn random(rng: &mut SmallRng) -> (r: Self)
        ensures
            r@ < P,
    {
        let w0 = next_u32(rng);
        let w1 = next_u32(rng);
        let w2 = next_u32(rng);
        let w3 = next_u32(rng);
        let w4 = next_u32(rng);
        let w5 = next_u32(rng);
        let r = Elem::from_random_words(&[w0, w1, w2, w3, w4, w5]);
        proof {
            use_type_invariant(r);
        }
        r
    }

    /// The element as words: one word holding the canonical value.
    pub fn to_u32_words(&self) -> (r: Vec<u32>)
        ensures
            r@ == seq![self@ as u32],
    {
        let mut v: Vec<u32> = Vec::new();
        v.push(self.0);
        v
    }

    /// Reads an element from its first word, reduced modulo `P`.
    pub fn from_u32_words(val: &[u32]) -> (r: Self)
        requires
            val@.len() >= 1,
        ensures
            r@ == modp(val@[0] as int),
    {
        Elem::new(val[0])
    }
}

impl Default for Elem {
    fn default() -> (r: Self)
        ensures
            r@ == 0,
    {
        Elem::zero()
    }
}

impl Add for Elem {
    type Output = Self;

    fn add(self, rhs: Self) -> (r: Self)
        ensures
            r@ == fadd(self@, rhs@),
    {
        proof {
            use_type_invariant(self);
            use_type_invariant(rhs);
        }
        Elem(self::add(self.0, rhs.0))
    }
}

impl vstd::std_specs::ops::AddSpecImpl for Elem {
    open spec fn obeys_add_spec() -> bool {
        false
    }

    open spec fn add_req(self, rhs: Self) -> bool {
        true
    }

    open spec fn add_spec(self, rhs: Self) -> Self {
        self
    }
}

impl AddAssign for Elem {
    fn add_assign(&mut self, rhs: Self)
        ensures
            final(self)@ == fadd(old(self)@, rhs@),
    {
        *self = *self + rhs;
    }
}

impl Sub for Elem {
    type Output = Self;

    fn sub(self, rhs: Self) -> (r: Self)
        ensures
            r@ == fsub(self@, rhs@),
    {
        proof {
            use_type_invariant(self);
            use_type_invariant(rhs);
        }
        Elem(self::sub(self.0, rhs.0))
    }
}

impl vstd::std_specs::ops::SubSpecImpl for Elem {
    open spec fn obeys_sub_spec() -> bool {
        false
    }

    open spec fn sub_req(self, rhs: Self) -> bool {
        true
    }

    open spec fn sub_spec(self, rhs: Self) -> Self {
        self
    }
}

impl SubAssign for Elem {
    fn sub_assign(&mut self, rhs: Self)
        ensures
            final(self)@ == fsub(old(self)@, rhs@),
    {
        *self = *self - rhs;
    }
}

impl Mul for Elem {
    type Output = Self;

    fn mul(self, rhs: Self) -> (r: Self)
        ensures
            r@ == fmul(self@, rhs@),
    {
        proof {
            lemma_modp_bound(self@ * rhs@);
        }
        Elem(self::mul(self.0, rhs.0))
    }
}

impl vstd::std_specs::ops::MulSpecImpl for Elem {
    open spec fn obeys_mul_spec() -> bool {
        false
    }

    open spec fn mul_req(self, rhs: Self) -> bool {
        true
    }

    open spec fn mul_spec(self, rhs: Self) -> Self {
        self
    }
}

impl MulAssign for Elem {
    fn mul_assign(&mut self, rhs: Self)
        ensures
            final(self)@ == fmul(old(self)@, rhs@),
    {
        *self = *self * rhs;
    }
}

impl Neg for Elem {
    type Output = Self;

    fn neg(self) -> (r: Self)
        ensures
            r@ == fneg(self@),
    {
        Elem(0) - self
    }
}

impl vstd::std_specs::ops::NegSpecImpl for Elem {
    open spec fn obeys_neg_spec() -> bool {
        false
    }

    open spec fn neg_req(self) -> bool {
        true
    }

    open spec fn neg_spec(self) -> Self {
        self
    }
}

impl From<Elem> for u32 {
    fn from(x: Elem) -> (r: u32) {
        x.as_u32()
    }
}

impl vstd::std_specs::convert::FromSpecImpl<Elem> for u32 {
    open spec fn obeys_from_spec() -> bool {
        true
    }

    open spec fn from_spec(x: Elem) -> u32 {
        x@ as u32
    }
}

impl From<&Elem> for u32 {
    fn from(x: &Elem) -> (r: u32) {
        x.as_u32()
    }
}

impl vstd::std_specs::convert::FromSpecImpl<&Elem> for u32 {
    open spec fn obeys_from_spec() -> bool {
        true
    }

    open spec fn from_spec(x: &Elem) -> u32 {
        x@ as u32
    }
}

impl From<Elem> for u64 {
    fn from(x: Elem) -> (r: u64) {
        x.as_u32() as u64
    }
}

impl vstd::std_specs::convert::FromSpecImpl<Elem> for u64 {
    open spec fn obeys_from_spec() -> bool {
        true
    }

    open spec fn from_spec(x: Elem) -> u64 {
        x@ as u64
    }
}

impl From<u32> for Elem {
    fn from(x: u32) -> (r: Elem)
        ensures
            r@ == modp(x as int),
    {
        Elem::new(x)
    }
}

impl vstd::std_specs::convert::FromSpecImpl<u32> for Elem {
    open spec fn obeys_from_spec() -> bool {
        false
    }

    open spec fn from_spec(x: u32) -> Elem {
        arbitrary()
    }
}

impl From<u64> for Elem {
    fn from(x: u64) -> (r: Elem)
        ensures
            r@ == modp(x as int),
    {
        Elem::from_u64(x)
    }
}

impl vstd::std_specs::convert::FromSpecImpl<u64> for Elem {
    open spec fn obeys_from_spec() -> bool {
        false
    }

    open spec fn from_spec(x: u64) -> Elem {
        arbitrary()
    }
}

/// The number of base field coefficients of an [`ExtElem`].
pub const EXT_SIZE: usize = 4;

/// An element of the degree-four extension `F_p[X] / (X^4 - 11)`, held as
/// its four coefficients, lowest degree first. The irreducible polynomial is
/// the simplest possible one, `X^4 - beta`, with `beta = 11`. The base field
/// embeds as the constant polynomials.
#[derive(Copy, Clone, Debug, Eq)]
pub struct ExtElem([Elem; EXT_SIZE]);

/// Alias for the BabyBear [`ExtElem`].
pub type BabyBearExtElem = ExtElem;

impl View for ExtElem {
    type V = Quad;

    closed spec fn view(&self) -> Quad {
        (self.0@[0]@, self.0@[1]@, self.0@[2]@, self.0@[3]@)
    }
}

impl ExtElem {
    /// The number of `u32` words that hold one element.
    pub const WORDS: usize = 4;

    /// The number of base field coefficients.
    pub const EXT_SIZE: usize = EXT_SIZE;

    /// Constructs an element from its coefficients.
    pub fn new(x0: Elem, x1: Elem, x2: Elem, x3: Elem) -> (r: Self)
        ensures
            r@ == (x0@, x1@, x2@, x3@),
    {
        ExtElem([x0, x1, x2, x3])
    }

    /// Embeds a base field element.
    pub fn from_fp(x: Elem) -> (r: Self)
        ensures
            r@ == embed(x@),
    {
        ExtElem([x, Elem::new(0), Elem::new(0), Elem::new(0)])
    }

    /// Embeds a raw integer, reduced modulo `P`.
    pub fn from_u32(x0: u32) -> (r: Self)
        ensures
            r@ == embed(modp(x0 as int)),
    {
        ExtElem([Elem::new(x0), Elem::new(0), Elem::new(0), Elem::new(0)])
    }

    /// Embeds a `u64`, reduced modulo `P`.
    pub fn from_u64(val: u64) -> (r: Self)
        ensures
            r@ == embed(modp(val as int)),
    {
        ExtElem([Elem::from_u64(val), Elem::zero(), Elem::zero(), Elem::zero()])
    }

    /// The element zero.
    pub fn zero() -> (r: Self)
        ensures
            r@ == embed(0),
    {
        ExtElem::from_u32(0)
    }

    /// The element one.
    pub fn one() -> (r: Self)
        ensures
            r@ == embed(1),
    {
        ExtElem::from_u32(1)
    }

    /// The constant coefficient.
    pub fn const_part(self) -> (r: Elem)
        ensures
            r@ == self@.0,
    {
        self.0[0]
    }

    /// The coefficients, lowest degree first.
    pub fn elems(&self) -> (r: &[Elem])
        ensures
            r@.len() == 4,
            (r@[0]@, r@[1]@, r@[2]@, r@[3]@) == self@,
    {
        self.0.as_slice()
    }

    /// The coefficients, lowest degree first.
    pub fn subelems(&self) -> (r: &[Elem])
        ensures
            r@.len() == 4,
            (r@[0]@, r@[1]@, r@[2]@, r@[3]@) == self@,
    {
        self.0.as_slice()
    }

    /// Embeds a base field element.
    pub fn from_subfield(elem: &Elem) -> (r: Self)
        ensures
            r@ == embed(elem@),
    {
        ExtElem::from_fp(*elem)
    }

    /// Builds an element from exactly four coefficients, lowest degree first.
    pub fn from_subelems(elems: &[Elem]) -> (r: Self)
        requires
            elems@.len() == EXT_SIZE,
        ensures
            r@ == (elems@[0]@, elems@[1]@, elems@[2]@, elems@[3]@),
    {
        ExtElem([elems[0], elems[1], elems[2], elems[3]])
    }

    /// The coefficients as four words holding their canonical values.
    pub fn to_u32_words(&self) -> (r: Vec<u32>)
        ensures
            r@.len() == 4,
            r@[0] == self@.0,
            r@[1] == self@.1,
            r@[2] == self@.2,
            r@[3] == self@.3,
    {
        let mut v: Vec<u32> = Vec::new();
        v.push(self.0[0].as_u32());
        v.push(self.0[1].as_u32());
        v.push(self.0[2].as_u32());
        v.push(self.0[3].as_u32());
        v
    }

    /// Reads an element from four words, each reduced modulo `P`.
    pub fn from_u32_words(val: &[u32]) -> (r: Self)
        requires
            val@.len() == 4,
        ensures
            r@ == (modp(val@[0] as int), modp(val@[1] as int), modp(val@[2] as int), modp(
                val@[3] as int,
            )),
    {
        ExtElem([Elem::new(val[0]), Elem::new(val[1]), Elem::new(val[2]), Elem::new(val[3])])
    }

    /// Draws four independent base field coefficients from the generator.
    pub fn random(rng: &mut SmallRng) -> (r: Self)
        ensures
            crate::quartic::canonical(r@),
    {
        let x0 = Elem::random(rng);
        let x1 = Elem::random(rng);
        let x2 = Elem::random(rng);
        let x3 = Elem::random(rng);
        proof {
            use_type_invariant(x0);
            use_type_invariant(x1);
            use_type_invariant(x2);
            use_type_invariant(x3);
        }
        ExtElem([x0, x1, x2, x3])
    }

    /// Raises the element to the power `n` by square-and-multiply, reading
    /// the bits of `n` from least to most significant.
    pub fn pow(self, n: usize) -> (r: Self)
        ensures
            r@ == ext_pow(self@, n as nat),
    {
        let mut n_left = n;
        let mut tot = ExtElem::one();
        let mut x = self;
        proof {
            lemma_ext_pow_canonical(self@, n as nat);
            lemma_ext_mul_one(ext_pow(self@, n as nat));
        }
        while n_left != 0
            invariant
                crate::quartic::canonical(tot@),
                ext_mul(tot@, ext_pow(x@, n_left as nat)) == ext_pow(self@, n as nat),
            decreases n_left,
        {
            proof {
                lemma_ext_square_multiply_step(tot@, x@, n_left as nat);
            }
            if n_left % 2 == 1 {
                proof {
                    lemma_ext_mul_canonical(tot@, x@);
                }
                tot = tot * x;
            }
            n_left = n_left / 2;
            x = x * x;
        }
        proof {
            lemma_ext_mul_one(tot@);
        }
        tot
    }

    /// The multiplicative inverse, or `None` when the norm of the element is
    /// zero. The element is treated as `A + X B` over `F_p[Y] / (Y^2 - 11)`
    /// with `Y = X^2`, and inverted the way complex numbers are: multiplying
    /// by the conjugate `A - X B` leaves `b = b0 + b2 Y`, and multiplying by
    /// `b0 - b2 Y` leaves the base field element `c`, so one base field
    /// inverse suffices.
    pub fn inv(self) -> (r: Option<Self>)
        ensures
            self@ == embed(0) <==> r is None,
            ext_norm(self@) == 0 <==> r is None,
            r is Some ==> r.unwrap()@ == ext_inv_with(
                self@,
                crate::field::fpow(ext_norm(self@), (P - 2) as nat),
            ),
            r is Some ==> ext_mul(r.unwrap()@, self@) == embed(1),
    {
        let (x0, x1, x2, x3) = (self.0[0], self.0[1], self.0[2], self.0[3]);
        proof {
            use_type_invariant(x0);
            use_type_invariant(x1);
            use_type_invariant(x2);
            use_type_invariant(x3);
            if ext_norm(self@) != 0 {
                crate::quartic::lemma_ext_inverse(self@);
            } else {
                crate::nonresidue::lemma_norm_zero(self@);
            }
            crate::nonresidue::lemma_norm_of_zero();
        }
        let a = &self.0;
        let beta = Elem::new(BETA);
        proof {
            lemma_modp_small(11);
        }
        let b0 = a[0] * a[0] + beta * (a[2] * a[2] - a[1] * (a[3] + a[3]));
        let b2 = a[0] * (a[2] + a[2]) - a[1] * a[1] - beta * (a[3] * a[3]);
        let c = b0 * b0 - beta * b2 * b2;
        match c.inv() {
            None => None,
            Some(ic) => {
                let b0 = b0 * ic;
                let b2 = b2 * ic;
                Some(
                    ExtElem(
                        [
                            a[0] * b0 - beta * a[2] * b2,
                            a[1].neg() * b0 + beta * a[3] * b2,
                            a[0].neg() * b2 + a[2] * b0,
                            a[1] * b2 - a[3] * b0,
                        ],
                    ),
                )
            },
        }
    }
}

impl PartialEq for ExtElem {
    fn eq(&self, rhs: &Self) -> (r: bool) {
        self.0[0] == rhs.0[0] && self.0[1] == rhs.0[1] && self.0[2] == rhs.0[2] && self.0[3]
            == rhs.0[3]
    }
}

impl vstd::std_specs::cmp::PartialEqSpecImpl for ExtElem {
    open spec fn obeys_eq_spec() -> bool {
        true
    }

    open spec fn eq_spec(&self, rhs: &Self) -> bool {
        self@ == rhs@
    }
}

impl Default for ExtElem {
    fn default() -> (r: Self)
        ensures
            r@ == embed(0),
    {
        ExtElem::zero()
    }
}

impl Add for ExtElem {
    type Output = Self;

    fn add(self, rhs: Self) -> (r: Self)
        ensures
            r@ == ext_add(self@, rhs@),
    {
        ExtElem(
            [self.0[0] + rhs.0[0], self.0[1] + rhs.0[1], self.0[2] + rhs.0[2], self.0[3] + rhs.0[3]],
        )
    }
}

impl vstd::std_specs::ops::AddSpecImpl for ExtElem {
    open spec fn obeys_add_spec() -> bool {
        false
    }

    open spec fn add_req(self, rhs: Self) -> bool {
        true
    }

    open spec fn add_spec(self, rhs: Self) -> Self {
        self
    }
}

impl AddAssign for ExtElem {
    fn add_assign(&mut self, rhs: Self)
        ensures
            final(self)@ == ext_add(old(self)@, rhs@),
    {
        *self = *self + rhs;
    }
}

impl Sub for ExtElem {
    type Output = Self;

    fn sub(self, rhs: Self) -> (r: Self)
        ensures
            r@ == ext_sub(self@, rhs@),
    {
        ExtElem(
            [self.0[0] - rhs.0[0], self.0[1] - rhs.0[1], self.0[2] - rhs.0[2], self.0[3] - rhs.0[3]],
        )
    }
}

impl vstd::std_specs::ops::SubSpecImpl for ExtElem {
    open spec fn obeys_sub_spec() -> bool {
        false
    }

    open spec fn sub_req(self, rhs: Self) -> bool {
        true
    }

    open spec fn sub_spec(self, rhs: Self) -> Self {
        self
    }
}

impl SubAssign for ExtElem {
    fn sub_assign(&mut self, rhs: Self)
        ensures
            final(self)@ == ext_sub(old(self)@, rhs@),
    {
        *self = *self - rhs;
    }
}

impl Mul<Elem> for ExtElem {
    type Output = Self;

    /// Multiplies every coefficient by a base field element.
    fn mul(self, rhs: Elem) -> (r: Self)
        ensures
            r@ == ext_scale(self@, rhs@),
    {
        ExtElem([self.0[0] * rhs, self.0[1] * rhs, self.0[2] * rhs, self.0[3] * rhs])
    }
}

impl vstd::std_specs::ops::MulSpecImpl<Elem> for ExtElem {
    open spec fn obeys_mul_spec() -> bool {
        false
    }

    open spec fn mul_req(self, rhs: Elem) -> bool {
        true
    }

    open spec fn mul_spec(self, rhs: Elem) -> Self {
        self
    }
}

impl MulAssign<Elem> for ExtElem {
    fn mul_assign(&mut self, rhs: Elem)
        ensures
            final(self)@ == ext_scale(old(self)@, rhs@),
    {
        *self = *self * rhs;
    }
}

impl Mul<ExtElem> for Elem {
    type Output = ExtElem;

    fn mul(self, rhs: ExtElem) -> (r: ExtElem)
        ensures
            r@ == ext_scale(rhs@, self@),
    {
        rhs * self
    }
}

impl vstd::std_specs::ops::MulSpecImpl<ExtElem> for Elem {
    open spec fn obeys_mul_spec() -> bool {
        false
    }

    open spec fn mul_req(self, rhs: ExtElem) -> bool {
        true
    }

    open spec fn mul_spec(self, rhs: ExtElem) -> ExtElem {
        rhs
    }
}

impl Mul for ExtElem {
    type Output = ExtElem;

    /// Multiplies the polynomials and reduces modulo `X^4 - beta`, so that
    /// powers from `X^4` up fold back four places, multiplied by `beta`.
    fn mul(self, rhs: ExtElem) -> (r: ExtElem)
        ensures
            r@ == ext_mul(self@, rhs@),
    {
        let a = &self.0;
        let b = &rhs.0;
        let beta = Elem::new(BETA);
        proof {
            lemma_modp_small(11);
            lemma_ext_mul_by_field_ops(self@, rhs@);
        }
        ExtElem(
            [
                a[0] * b[0] + beta * (a[1] * b[3] + a[2] * b[2] + a[3] * b[1]),
                a[0] * b[1] + a[1] * b[0] + beta * (a[2] * b[3] + a[3] * b[2]),
                a[0] * b[2] + a[1] * b[1] + a[2] * b[0] + beta * (a[3] * b[3]),
                a[0] * b[3] + a[1] * b[2] + a[2] * b[1] + a[3] * b[0],
            ],
        )
    }
}

impl vstd::std_specs::ops::MulSpecImpl for ExtElem {
    open spec fn obeys_mul_spec() -> bool {
        false
    }

    open spec fn mul_req(self, rhs: Self) -> bool {
        true
    }

    open spec fn mul_spec(self, rhs: Self) -> Self {
        self
    }
}

impl MulAssign for ExtElem {
    fn mul_assign(&mut self, rhs: Self)
        ensures
            final(self)@ == ext_mul(old(self)@, rhs@),
    {
        *self = *self * rhs;
    }
}

impl Neg for ExtElem {
    type Output = Self;

    fn neg(self) -> (r: Self)
        ensures
            r@ == ext_neg(self@),
    {
        ExtElem::zero() - self
    }
}

impl vstd::std_specs::ops::NegSpecImpl for ExtElem {
    open spec fn obeys_neg_spec() -> bool {
        false
    }

    open spec fn neg_req(self) -> bool {
        true
    }

    open spec fn neg_spec(self) -> Self {
        self
    }
}

impl From<u32> for ExtElem {
    fn from(x: u32) -> (r: Self)
        ensures
            r@ == embed(modp(x as int)),
    {
        ExtElem::from_u32(x)
    }
}

impl vstd::std_specs::convert::FromSpecImpl<u32> for ExtElem {
    open spec fn obeys_from_spec() -> bool {
        false
    }

    open spec fn from_spec(x: u32) -> Self {
        arbitrary()
    }
}

impl From<Elem> for ExtElem {
    fn from(x: Elem) -> (r: Self)
        ensures
            r@ == embed(x@),
    {
        ExtElem::from_fp(x)
    }
}

impl vstd::std_specs::convert::FromSpecImpl<Elem> for ExtElem {
    open spec fn obeys_from_spec() -> bool {
        false
    }

    open spec fn from_spec(x: Elem) -> Self {
        arbitrary()
    }
}

impl From<[Elem; EXT_SIZE]> for ExtElem {
    fn from(val: [Elem; EXT_SIZE]) -> (r: Self)
        ensures
            r@ == (val@[0]@, val@[1]@, val@[2]@, val@[3]@),
    {
        ExtElem(val)
    }
}

impl vstd::std_specs::convert::FromSpecImpl<[Elem; EXT_SIZE]> for ExtElem {
    open spec fn obeys_from_spec() -> bool {
        false
    }

    open spec fn from_spec(val: [Elem; EXT_SIZE]) -> Self {
        arbitrary()
    }
}

} // verus!
