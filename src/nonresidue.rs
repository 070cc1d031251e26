//! `X^4 - 11` has no nonzero element of norm zero: the norm
//! `b0^2 - 11 b2^2` of an extension element vanishes only at zero. This rests
//! on `11` not being a square modulo `P` while `-1` is one.
use crate::fermat::{lemma_chain_step, lemma_fermat, lemma_fmul_eval, lemma_inverse, lemma_sq_chain, sq_chain};
use crate::field::{
    fmul, fpow, lemma_fmul_associative, lemma_fmul_commutative, lemma_fmul_noop,
    lemma_fpow_adds, lemma_fpow_noop, lemma_fpow_small, lemma_modp_bound, lemma_modp_small, modp, P,
};
use crate::quartic::{canonical, ext_norm, norm_b0_raw, norm_b2_raw, lemma_norm_parts, Quad};
use vstd::arithmetic::power::{lemma_pow_multiplies, lemma_square_is_pow2, pow};
use vstd::arithmetic::power2::lemma2_to64;
use vstd::prelude::*;

verus! {

/// A square root of `-1`: the generator of the subgroup of order four.
pub const SQRT_NEG_ONE: u32 = 284861408;

/// `11^((P-1)/2) = -1`.
proof fn lemma_eleven_power()
    ensures
        fpow(11, 1006632960) == P - 1,
{
    lemma_fpow_small(11);
    lemma_fpow_adds(11, 1, 1);
    lemma_fmul_eval(11, 11, 0, 121);
    lemma_fpow_adds(11, 2, 1);
    lemma_fmul_eval(121, 11, 0, 1331);
    lemma_fpow_adds(11, 3, 2);
    lemma_fmul_eval(1331, 121, 0, 161051);
    lemma_fpow_adds(11, 5, 5);
    lemma_fmul_eval(161051, 161051, 12, 1778233549);
    lemma_fpow_adds(11, 10, 5);
    lemma_fmul_eval(1778233549, 161051, 142249, 1227303670);
    lemma2_to64();
    lemma_sq_chain(11, 15, 26);
    lemma_chain_step(1227303670, 1, 1227303670, 748174537, 93415323);
    lemma_chain_step(1227303670, 2, 93415323, 4334460, 1967256669);
    lemma_chain_step(1227303670, 3, 1967256669, 1922298868, 803698133);
    lemma_chain_step(1227303670, 4, 803698133, 320837243, 1468189886);
    lemma_chain_step(1227303670, 5, 1468189886, 1070688933, 551940703);
    lemma_chain_step(1227303670, 6, 551940703, 151315599, 845732530);
    lemma_chain_step(1227303670, 7, 845732530, 355275229, 1179029991);
    lemma_chain_step(1227303670, 8, 1179029991, 690475960, 139700921);
    lemma_chain_step(1227303670, 9, 139700921, 9693874, 1161580287);
    lemma_chain_step(1227303670, 10, 1161580287, 670189044, 234232845);
    lemma_chain_step(1227303670, 11, 234232845, 27251753, 74384512);
    lemma_chain_step(1227303670, 12, 74384512, 2748298, 921325686);
    lemma_chain_step(1227303670, 13, 921325686, 421623895, 400588301);
    lemma_chain_step(1227303670, 14, 400588301, 79706801, 772837880);
    lemma_chain_step(1227303670, 15, 772837880, 296671384, 1619789736);
    lemma_chain_step(1227303670, 16, 1619789736, 1303215219, 709697997);
    lemma_chain_step(1227303670, 17, 709697997, 250176214, 1054808915);
    lemma_chain_step(1227303670, 18, 1054808915, 552645249, 949217896);
    lemma_chain_step(1227303670, 19, 949217896, 447538799, 1734697937);
    lemma_chain_step(1227303670, 20, 1734697937, 1494674350, 784229619);
    lemma_chain_step(1227303670, 21, 784229619, 305481798, 1917679203);
    lemma_chain_step(1227303670, 22, 1917679203, 1826630792, 1835875777);
    lemma_chain_step(1227303670, 23, 1835875777, 1674115591, 1400279418);
    lemma_chain_step(1227303670, 24, 1400279418, 973931177, 420899707);
    lemma_chain_step(1227303670, 25, 420899707, 87994616, 1728404513);
    lemma_chain_step(1227303670, 26, 1728404513, 1483848769, 2013265920);
}

/// A product of nonzero canonical values is nonzero.
pub proof fn lemma_no_zero_divisors(x: int, y: int)
    requires
        0 <= x < P,
        0 <= y < P,
        fmul(x, y) == 0,
    ensures
        x == 0 || y == 0,
{
    if x != 0 {
        let ix = fpow(x, (P - 2) as nat);
        lemma_inverse(x);
        lemma_fmul_associative(ix, x, y);
        lemma_fmul_noop(ix, x * y);
        lemma_modp_small(0);
        lemma_modp_small(y);
    }
}

/// `11` is not a square modulo `P`.
pub proof fn lemma_eleven_not_square(x: int)
    requires
        0 <= x < P,
    ensures
        fmul(x, x) != 11,
{
    if fmul(x, x) == 11 {
        lemma_eleven_power();
        lemma_modp_small(0);
        if x == 0 {
            assert(x * x == 0) by (nonlinear_arith)
                requires
                    x == 0,
            ;
        }
        lemma_fermat(x);
        lemma_fpow_noop(x * x, 1006632960);
        lemma_pow_multiplies(x, 2, 1006632960);
        lemma_square_is_pow2(x);
    }
}

/// `x^2 = 11 y^2` has no solution with `y` nonzero.
pub proof fn lemma_not_eleven_times_square(x: int, y: int)
    requires
        0 <= x < P,
        0 < y < P,
    ensures
        modp(x * x) != modp(11 * (y * y)),
{
    if modp(x * x) == modp(11 * (y * y)) {
        let iy = fpow(y, (P - 2) as nat);
        lemma_inverse(y);
        lemma_modp_bound(vstd::arithmetic::power::pow(y, (P - 2) as nat));
        let z = fmul(x, iy);
        lemma_modp_bound(x * iy);
        // z^2 = x^2 iy^2 = 11 (y iy)^2 = 11.
        lemma_fmul_noop(x * iy, x * iy);
        assert((x * iy) * (x * iy) == (x * x) * (iy * iy)) by (nonlinear_arith);
        lemma_fmul_noop(x * x, iy * iy);
        lemma_fmul_noop(11 * (y * y), iy * iy);
        assert((11 * (y * y)) * (iy * iy) == 11 * ((iy * y) * (iy * y))) by (nonlinear_arith);
        lemma_fmul_noop(11, (iy * y) * (iy * y));
        lemma_fmul_noop(iy * y, iy * y);
        lemma_modp_small(1);
        lemma_modp_small(11);
        lemma_eleven_not_square(z);
    }
}

/// `-1` is a square.
proof fn lemma_sqrt_neg_one()
    ensures
        fmul(SQRT_NEG_ONE as int, SQRT_NEG_ONE as int) == P - 1,
{
    lemma_fmul_eval(284861408, 284861408, 40305664, 2013265920);
}

/// `w^2 = -11 z^2` has no solution with `z` nonzero.
pub proof fn lemma_not_neg_eleven_times_square(w: int, z: int)
    requires
        0 <= w < P,
        0 < z < P,
    ensures
        modp(w * w) != modp(-11 * (z * z)),
{
    if modp(w * w) == modp(-11 * (z * z)) {
        let f = SQRT_NEG_ONE as int;
        lemma_sqrt_neg_one();
        let u = fmul(f, z);
        lemma_modp_bound(f * z);
        if u == 0 {
            lemma_no_zero_divisors(f, z);
        }
        // 11 u^2 = 11 f^2 z^2 = -11 z^2.
        lemma_fmul_noop(f * z, f * z);
        lemma_fmul_noop(11, (f * z) * (f * z));
        assert(11 * ((f * z) * (f * z)) == (f * f) * (11 * (z * z))) by (nonlinear_arith);
        lemma_fmul_noop(f * f, 11 * (z * z));
        assert(modp(f * f) == modp(-1)) by {
            lemma_modp_small(P - 1);
            vstd::arithmetic::div_mod::lemma_mod_add_multiples_vanish(-1, P as int);
        }
        lemma_fmul_noop(-1, 11 * (z * z));
        assert(-1 * (11 * (z * z)) == -11 * (z * z));
        lemma_not_eleven_times_square(w, u);
    }
}

/// The square of a nonzero canonical value is nonzero.
proof fn lemma_square_nonzero(x: int)
    requires
        0 <= x < P,
        modp(x * x) == 0,
    ensures
        x == 0,
{
    lemma_no_zero_divisors(x, x);
}

/// An extension element of norm zero is zero.
pub proof fn lemma_norm_zero(a: Quad)
    requires
        canonical(a),
        ext_norm(a) == 0,
    ensures
        a == (0int, 0int, 0int, 0int),
{
    let (a0, a1, a2, a3) = a;
    let nb0 = norm_b0_raw(a);
    let nb2 = norm_b2_raw(a);
    lemma_norm_parts(a);
    let b0 = modp(nb0);
    let b2 = modp(nb2);
    lemma_modp_bound(nb0);
    lemma_modp_bound(nb2);
    lemma_modp_small(0);
    // b0^2 = 11 b2^2, so b2 = 0 and then b0 = 0.
    lemma_diff_zero(nb0 * nb0, 11 * nb2 * nb2);
    lemma_fmul_noop(nb0, nb0);
    lemma_fmul_noop(nb2, nb2);
    lemma_fmul_noop(11, nb2 * nb2);
    lemma_fmul_noop(11, b2 * b2);
    assert(11 * nb2 * nb2 == 11 * (nb2 * nb2)) by (nonlinear_arith);
    if b2 != 0 {
        lemma_not_eleven_times_square(b0, b2);
    }
    assert(b2 == 0);
    assert(modp(b0 * b0) == 0) by {
        lemma_fmul_noop(11, 0);
    }
    lemma_square_nonzero(b0);
    // Writing S = a0^2 + 11 a2^2, T = 2 a0 a2, U = a1^2 + 11 a3^2, V = 2 a1 a3:
    // NA^2 + 11 NB^2 = b0 (S + 11 V) - 11 b2 (T + U) with NA = a0^2 - 11 a2^2
    // and NB = a1^2 - 11 a3^2, so NA^2 = -11 NB^2.
    let na = a0 * a0 - 11 * (a2 * a2);
    let nb = a1 * a1 - 11 * (a3 * a3);
    let s = a0 * a0 + 11 * (a2 * a2);
    let t = 2 * (a0 * a2);
    let u = a1 * a1 + 11 * (a3 * a3);
    let v = 2 * (a1 * a3);
    assert(na * na == s * s - 11 * (t * t)) by (nonlinear_arith)
        requires
            na == a0 * a0 - 11 * (a2 * a2),
            s == a0 * a0 + 11 * (a2 * a2),
            t == 2 * (a0 * a2),
    ;
    assert(nb * nb == u * u - 11 * (v * v)) by (nonlinear_arith)
        requires
            nb == a1 * a1 - 11 * (a3 * a3),
            u == a1 * a1 + 11 * (a3 * a3),
            v == 2 * (a1 * a3),
    ;
    assert(a1 * (a3 + a3) == 2 * (a1 * a3) && a0 * (a2 + a2) == 2 * (a0 * a2))
        by (nonlinear_arith);
    assert(nb0 == s - 11 * v && nb2 == t - u);
    assert(s * s - 11 * (t * t) + 11 * (u * u - 11 * (v * v)) == (s - 11 * v) * (s + 11 * v) - 11
        * (t - u) * (t + u)) by (nonlinear_arith);
    assert(na * na + 11 * (nb * nb) == nb0 * (s + 11 * v) - 11 * nb2 * (t + u));
    lemma_multiple_of_zero(nb0, s + 11 * v, nb2, t + u);
    lemma_diff_zero(na * na, -11 * (nb * nb));
    let ma = modp(na);
    let mb = modp(nb);
    lemma_modp_bound(na);
    lemma_modp_bound(nb);
    lemma_fmul_noop(na, na);
    lemma_fmul_noop(nb, nb);
    lemma_fmul_noop(-11, nb * nb);
    lemma_fmul_noop(-11, mb * mb);
    if mb != 0 {
        lemma_not_neg_eleven_times_square(ma, mb);
    }
    assert(mb == 0);
    // a1^2 = 11 a3^2, so a3 = 0 and then a1 = 0.
    lemma_diff_zero(a1 * a1, 11 * (a3 * a3));
    if a3 != 0 {
        lemma_not_eleven_times_square(a1, a3);
    }
    lemma_square_nonzero(a1);
    // Now b0 = a0^2 + 11 a2^2 and b2 = 2 a0 a2.
    assert(nb2 == 2 * a0 * a2 && nb0 == a0 * a0 + 11 * (a2 * a2)) by (nonlinear_arith)
        requires
            a1 == 0,
            a3 == 0,
            nb0 == a0 * a0 + 11 * (a2 * a2 - a1 * (a3 + a3)),
            nb2 == a0 * (a2 + a2) - a1 * a1 - 11 * (a3 * a3),
    ;
    assert(modp(2 * a0 * a2) == 0);
    lemma_fmul_noop(2 * a0, a2);
    lemma_modp_bound(2 * a0);
    lemma_no_zero_divisors(modp(2 * a0), a2);
    if a2 == 0 {
        lemma_square_nonzero(a0);
    } else {
        lemma_fmul_noop(2, a0);
        lemma_modp_small(2);
        lemma_no_zero_divisors(2, a0);
        assert(a0 * a0 == 0);
        assert(modp(11 * (a2 * a2)) == 0);
        lemma_fmul_noop(11, a2 * a2);
        lemma_modp_small(11);
        lemma_fmul_noop(a2, a2);
        lemma_modp_bound(a2 * a2);
        lemma_no_zero_divisors(11, modp(a2 * a2));
        lemma_square_nonzero(a2);
    }
}

/// `modp(x - y) = 0` exactly when `modp(x) = modp(y)`.
proof fn lemma_diff_zero(x: int, y: int)
    ensures
        modp(x - y) == 0 <==> modp(x) == modp(y),
{
    crate::field::lemma_fsub_noop(x, y);
    lemma_modp_bound(x);
    lemma_modp_bound(y);
    lemma_modp_small(0);
    if modp(x) != modp(y) {
        let d = modp(x) - modp(y);
        if d > 0 {
            lemma_modp_small(d);
        } else {
            vstd::arithmetic::div_mod::lemma_mod_add_multiples_vanish(d, P as int);
            lemma_modp_small(d + P);
        }
    }
}

/// `p q - 11 r s` vanishes modulo `P` when `p` and `r` do.
proof fn lemma_multiple_of_zero(p: int, q: int, r: int, s: int)
    requires
        modp(p) == 0,
        modp(r) == 0,
    ensures
        modp(p * q - 11 * r * s) == 0,
{
    lemma_fmul_noop(p, q);
    lemma_fmul_noop(11 * s, r);
    assert(11 * r * s == (11 * s) * r) by (nonlinear_arith);
    lemma_modp_small(0);
    crate::field::lemma_fsub_noop(p * q, 11 * r * s);
    crate::field::lemma_fsub_noop(0, 0);
}

/// Zero has norm zero.
pub proof fn lemma_norm_of_zero()
    ensures
        ext_norm((0int, 0int, 0int, 0int)) == 0,
{
    lemma_norm_parts((0int, 0int, 0int, 0int));
    lemma_modp_small(0);
}

} // verus!
