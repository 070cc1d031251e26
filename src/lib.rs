//! Arithmetic in the BabyBear prime field `F_p`, `p = 15 * 2^27 + 1`, and in
//! its degree-four extension.
use vstd::prelude::*;

// The mathematics: arithmetic modulo `P` and in `F_p[X] / (X^4 - 11)`.
pub mod field;
pub mod quartic;
pub mod fermat;
pub mod nonresidue;
pub mod laws;

// The element types and the tables.
mod baby_bear;
mod canonical;
pub mod monty;
mod packed;
pub mod roots;
mod rng;

pub use baby_bear::BabyBear;
pub use canonical::{BabyBearCanonical, BabyBearElem, BabyBearExtElem, Elem, ExtElem};
pub use monty::MontyBabyBear;
pub use packed::PackedBabyBear;
pub use field::{P, TWO_ADICITY};

verus! {

/// Multiplies two integers modulo `P`.
pub fn mul(lhs: u32, rhs: u32) -> (r: u32)
    ensures
        r == field::fmul(lhs as int, rhs as int),
{
    proof {
        vstd::arithmetic::mul::lemma_mul_upper_bound(
            lhs as int,
            u32::MAX as int,
            rhs as int,
            u32::MAX as int,
        );
        field::lemma_modp_bound(lhs as int * rhs as int);
    }
    (((lhs as u64) * (rhs as u64)) % field::P_U64) as u32
}

/// Multiplies two extension field elements given as four words each,
/// lowest degree first; each word is read modulo `P`.
pub fn ext_mul(a: [u32; 4], b: [u32; 4]) -> (r: [u32; 4])
    ensures
        (r[0] as int, r[1] as int, r[2] as int, r[3] as int) == quartic::ext_mul(
            (a[0] as int, a[1] as int, a[2] as int, a[3] as int),
            (b[0] as int, b[1] as int, b[2] as int, b[3] as int),
        ),
{
    let x = ExtElem::from_u32_words(a.as_slice());
    let y = ExtElem::from_u32_words(b.as_slice());
    let w = (x * y).to_u32_words();
    proof {
        let qa = (a[0] as int, a[1] as int, a[2] as int, a[3] as int);
        let qb = (b[0] as int, b[1] as int, b[2] as int, b[3] as int);
        quartic::lemma_ext_mul_reduce(qa, quartic::reduce(qb));
        quartic::lemma_ext_mul_reduce(qa, qb);
    }
    [w[0], w[1], w[2], w[3]]
}

} // verus!
