//! Fermat's little theorem for the BabyBear prime, from the multiplicative
//! order of the generator `31`.
use crate::field::{
    fmul, fpow, lemma_fmul_associative, lemma_fpow_adds, lemma_fpow_multiplies,
    lemma_fpow_small, lemma_fpow_square, lemma_modp_bound, lemma_modp_small, modp, P,
};
use vstd::arithmetic::div_mod::{lemma_fundamental_div_mod, lemma_mod_multiples_basic,
    lemma_mul_mod_noop};
use vstd::arithmetic::mul::{lemma_mul_is_associative, lemma_mul_is_commutative};
use vstd::arithmetic::power::{lemma1_pow, pow};
use vstd::arithmetic::power2::{lemma2_to64, lemma_pow2_unfold, pow2};
use vstd::prelude::*;
use vstd::relations::injective_on;
use vstd::set_lib::{lemma_int_range, lemma_map_size, lemma_subset_equality, set_int_range};

verus! {

/// The order of the multiplicative group, `P - 1 = 15 * 2^27`.
pub open spec fn group_order() -> nat {
    (P - 1) as nat
}

/// `x` squared `k` times, modulo `P`.
pub open spec fn sq_chain(x: int, k: nat) -> int
    decreases k,
{
    if k == 0 {
        x
    } else {
        fmul(sq_chain(x, (k - 1) as nat), sq_chain(x, (k - 1) as nat))
    }
}

/// Squaring `a^e` `k` times gives `a^(e * 2^k)`.
pub(crate) proof fn lemma_sq_chain(a: int, e: nat, k: nat)
    ensures
        sq_chain(fpow(a, e), k) == fpow(a, e * pow2(k)),
    decreases k,
{
    if k == 0 {
        lemma2_to64();
    } else {
        lemma_sq_chain(a, e, (k - 1) as nat);
        lemma_fpow_square(a, e * pow2((k - 1) as nat));
        lemma_pow2_unfold(k);
        lemma_mul_is_associative(e as int, 2, pow2((k - 1) as nat) as int);
        lemma_mul_is_commutative(e as int, 2);
        lemma_mul_is_associative(2, e as int, pow2((k - 1) as nat) as int);
    }
}

/// `x mod P = v`, given the quotient.
proof fn lemma_mod_eval(x: int, q: int, v: int)
    requires
        x == q * P + v,
        0 <= v < P,
    ensures
        modp(x) == v,
{
    vstd::arithmetic::div_mod::lemma_mod_multiples_vanish(q, v, P as int);
    lemma_modp_small(v);
}

/// One step of a squaring chain, given the quotient of the square.
pub(crate) proof fn lemma_chain_step(x: int, k: nat, prev: int, q: int, v: int)
    requires
        k > 0,
        sq_chain(x, (k - 1) as nat) == prev,
        prev * prev == q * P + v,
        0 <= v < P,
    ensures
        sq_chain(x, k) == v,
{
    lemma_mod_eval(prev * prev, q, v);
}

/// `fmul(a, b) = v`, given the quotient of `a * b`.
pub(crate) proof fn lemma_fmul_eval(a: int, b: int, q: int, v: int)
    requires
        a * b == q * P + v,
        0 <= v < P,
    ensures
        fmul(a, b) == v,
{
    lemma_mod_eval(a * b, q, v);
}

proof fn lemma_small_powers()
    ensures
        fpow(31, 3) == 29791,
        fpow(31, 5) == 28629151,
        fpow(31, 15) == 440564289,
{
    lemma_fpow_small(31);
    lemma_fpow_adds(31, 1, 1);
    lemma_fmul_eval(31, 31, 0, 961);
    lemma_fpow_adds(31, 2, 1);
    lemma_fmul_eval(961, 31, 0, 29791);
    lemma_fpow_adds(31, 3, 2);
    lemma_fmul_eval(29791, 961, 0, 28629151);
    lemma_fpow_adds(31, 5, 5);
    lemma_fmul_eval(28629151, 28629151, 407113, 1558084728);
    lemma_fpow_adds(31, 10, 5);
    lemma_fmul_eval(1558084728, 28629151, 22156359, 440564289);
}

proof fn lemma_chain_of_31_pow_15()
    ensures
        sq_chain(440564289, 26) == P - 1,
        sq_chain(440564289, 27) == 1,
{
    lemma_chain_step(440564289, 1, 440564289, 96408969, 975630072);
    lemma_chain_step(440564289, 2, 975630072, 472791014, 1149491290);
    lemma_chain_step(440564289, 3, 1149491290, 656311822, 1003846038);
    lemma_chain_step(440564289, 4, 1003846038, 500533415, 1267047229);
    lemma_chain_step(440564289, 5, 1267047229, 797415117, 570250684);
    lemma_chain_step(440564289, 6, 570250684, 161521555, 414040701);
    lemma_chain_step(440564289, 7, 414040701, 85150054, 195061667);
    lemma_chain_step(440564289, 8, 195061667, 18899169, 1049899240);
    lemma_chain_step(440564289, 9, 1049899240, 547512577, 1559589183);
    lemma_chain_step(440564289, 10, 1559589183, 1208145627, 1286330022);
    lemma_chain_step(440564289, 11, 1286330022, 821871024, 1421947380);
    lemma_chain_step(440564289, 12, 1421947380, 1004305655, 2009781145);
    lemma_chain_step(440564289, 13, 2009781145, 2006302400, 1657000625);
    lemma_chain_step(440564289, 14, 1657000625, 1363779639, 298008106);
    lemma_chain_step(440564289, 15, 298008106, 44111823, 1282623253);
    lemma_chain_step(440564289, 16, 1282623253, 817141139, 1340477990);
    lemma_chain_step(440564289, 17, 1340477990, 892520567, 341742893);
    lemma_chain_step(440564289, 18, 341742893, 58009328, 1753498361);
    lemma_chain_step(440564289, 19, 1753498361, 1527248074, 1732600167);
    lemma_chain_step(440564289, 20, 1732600167, 1491061517, 397765732);
    lemma_chain_step(440564289, 21, 397765732, 78587520, 1721589904);
    lemma_chain_step(440564289, 22, 1721589904, 1472171046, 760005850);
    lemma_chain_step(440564289, 23, 760005850, 286901440, 196396260);
    lemma_chain_step(440564289, 24, 196396260, 19158666, 1592366214);
    lemma_chain_step(440564289, 25, 1592366214, 1259461123, 1728404513);
    lemma_chain_step(440564289, 26, 1728404513, 1483848769, 2013265920);
    lemma_chain_step(440564289, 27, 2013265920, 2013265919, 1);
}

proof fn lemma_chain_of_31_pow_5()
    ensures
        sq_chain(28629151, 27) == 1314723123,
{
    lemma_chain_step(28629151, 1, 28629151, 407113, 1558084728);
    lemma_chain_step(28629151, 2, 1558084728, 1205815880, 1422208504);
    lemma_chain_step(28629151, 3, 1422208504, 1004674547, 1678705229);
    lemma_chain_step(28629151, 4, 1678705229, 1399741194, 1771892767);
    lemma_chain_step(28629151, 5, 1771892767, 1559458164, 940487245);
    lemma_chain_step(28629151, 6, 940487245, 439343977, 1516982208);
    lemma_chain_step(28629151, 7, 1516982208, 1143035798, 792115306);
    lemma_chain_step(28629151, 8, 792115306, 311656126, 452791590);
    lemma_chain_step(28629151, 9, 452791590, 101834646, 1605829134);
    lemma_chain_step(28629151, 10, 1605829134, 1280847790, 2008025366);
    lemma_chain_step(28629151, 11, 2008025366, 2002798452, 456279664);
    lemma_chain_step(28629151, 12, 456279664, 103409653, 1492617483);
    lemma_chain_step(28629151, 13, 1492617483, 1106613352, 1252078097);
    lemma_chain_step(28629151, 14, 1252078097, 778684795, 12770214);
    lemma_chain_step(28629151, 15, 12770214, 81001, 1812738875);
    lemma_chain_step(28629151, 16, 1812738875, 1632184896, 1048536409);
    lemma_chain_step(28629151, 17, 1048536409, 546092093, 434152628);
    lemma_chain_step(28629151, 18, 434152628, 93623252, 1734511292);
    lemma_chain_step(28629151, 19, 1734511292, 1494352728, 839726776);
    lemma_chain_step(28629151, 20, 839726776, 350247352, 629262984);
    lemma_chain_step(28629151, 21, 629262984, 196681371, 1502726565);
    lemma_chain_step(28629151, 22, 1502726565, 1121653680, 48459945);
    lemma_chain_step(28629151, 23, 48459945, 1166446, 288916259);
    lemma_chain_step(28629151, 24, 288916259, 41461291, 503591070);
    lemma_chain_step(28629151, 25, 503591070, 125966452, 782862608);
    lemma_chain_step(28629151, 26, 782862608, 304417740, 1314723124);
    lemma_chain_step(28629151, 27, 1314723124, 858553693, 1314723123);
}

proof fn lemma_chain_of_31_pow_3()
    ensures
        sq_chain(29791, 27) == 645581151,
{
    lemma_chain_step(29791, 1, 29791, 0, 887503681);
    lemma_chain_step(29791, 2, 887503681, 391236336, 1462844305);
    lemma_chain_step(29791, 3, 1462844305, 1062906513, 839089552);
    lemma_chain_step(29791, 4, 839089552, 349715985, 1646113519);
    lemma_chain_step(29791, 5, 1646113519, 1345917441, 989735200);
    lemma_chain_step(29791, 6, 989735200, 486560546, 354087134);
    lemma_chain_step(29791, 7, 354087134, 62275776, 939704260);
    lemma_chain_step(29791, 8, 939704260, 438612747, 210852613);
    lemma_chain_step(29791, 9, 210852613, 22082936, 1924503713);
    lemma_chain_step(29791, 10, 1924503713, 1839654912, 620932417);
    lemma_chain_step(29791, 11, 620932417, 191508266, 953858903);
    lemma_chain_step(29791, 12, 953858903, 451925797, 911499372);
    lemma_chain_step(29791, 13, 911499372, 412678273, 1788359951);
    lemma_chain_step(29791, 14, 1788359951, 1588578677, 1109355884);
    lemma_chain_step(29791, 15, 1109355884, 611280638, 712883858);
    lemma_chain_step(29791, 16, 712883858, 252427356, 1634029288);
    lemma_chain_step(29791, 17, 1634029288, 1326229032, 475368472);
    lemma_chain_step(29791, 18, 475368472, 112243088, 233410736);
    lemma_chain_step(29791, 19, 233410736, 27060792, 1351192264);
    lemma_chain_step(29791, 20, 1351192264, 906845198, 1537548338);
    lemma_chain_step(29791, 21, 1537548338, 1174238766, 981668758);
    lemma_chain_step(29791, 22, 981668758, 478661830, 410767134);
    lemma_chain_step(29791, 23, 410767134, 83808917, 1902556399);
    lemma_chain_step(29791, 24, 1902556399, 1797934795, 422226006);
    lemma_chain_step(29791, 25, 422226006, 88550051, 161600065);
    lemma_chain_step(29791, 26, 161600065, 12971252, 1403701133);
    lemma_chain_step(29791, 27, 1403701133, 978696778, 645581151);
}

/// `31^(P-1) = 1`, while `31^((P-1)/2)`, `31^((P-1)/3)` and `31^((P-1)/5)` are not one.
proof fn lemma_generator_powers()
    ensures
        fpow(31, 2013265920) == 1,
        fpow(31, 1006632960) != 1,
        fpow(31, 671088640) != 1,
        fpow(31, 402653184) != 1,
{
    lemma_small_powers();
    lemma2_to64();
    lemma_sq_chain(31, 15, 27);
    lemma_sq_chain(31, 15, 26);
    lemma_sq_chain(31, 5, 27);
    lemma_sq_chain(31, 3, 27);
    lemma_chain_of_31_pow_15();
    lemma_chain_of_31_pow_5();
    lemma_chain_of_31_pow_3();
}

/// A power of the generator.
pub open spec fn gen_pow(i: nat) -> int {
    fpow(31, i)
}

/// If `31^d = 1` then `31^(d q + r) = 31^r`.
proof fn lemma_period(d: nat, q: nat, r: nat)
    requires
        gen_pow(d) == 1,
    ensures
        gen_pow(d * q + r) == gen_pow(r),
{
    lemma_fpow_adds(31, d * q, r);
    lemma_fpow_multiplies(31, d, q);
    lemma1_pow(q);
    lemma_modp_small(1);
    lemma_modp_bound(pow(31, r));
    lemma_modp_small(gen_pow(r));
}

/// An odd divisor of `2^k * 15` divides `15`.
proof fn lemma_odd_divisor(m: int, k: nat)
    requires
        m > 0,
        m % 2 == 1,
        (pow2(k) as int * 15) % m == 0,
    ensures
        15int % m == 0,
    decreases k,
{
    lemma2_to64();
    if k > 0 {
        let x: int = pow2((k - 1) as nat) as int * 15;
        lemma_pow2_unfold(k);
        assert(pow2(k) as int * 15 == 2 * x);
        let t: int = (2 * x) / m;
        lemma_fundamental_div_mod(2 * x, m);
        assert(2 * x == m * t);
        lemma_mul_mod_noop(m, t, 2);
        if t % 2 == 1 {
            assert((m * t) % 2 == 1);
        }
        let u: int = t / 2;
        assert(x == m * u) by (nonlinear_arith)
            requires
                2 * x == m * t,
                t == 2 * u + t % 2,
                t % 2 == 0,
        ;
        lemma_mul_is_commutative(m, u);
        lemma_mod_multiples_basic(u, m);
        lemma_odd_divisor(m, (k - 1) as nat);
    }
}

/// A divisor `m >= 2` of `P - 1` is divisible by `2`, `3` or `5`.
proof fn lemma_small_prime_factor(m: int)
    requires
        m >= 2,
        (group_order() as int) % m == 0,
    ensures
        m % 2 == 0 || m % 3 == 0 || m % 5 == 0,
{
    if m % 2 == 1 {
        lemma2_to64();
        assert(pow2(27) as int * 15 == group_order());
        lemma_odd_divisor(m, 27);
        if m > 15 {
            vstd::arithmetic::div_mod::lemma_small_mod(15, m as nat);
        }
        assert(m == 3 || m == 5 || m == 7 || m == 9 || m == 11 || m == 13 || m == 15);
    }
}

/// No `d` with `0 < d < P - 1` has `31^d = 1`.
proof fn lemma_no_small_period(d: nat)
    requires
        0 < d < group_order(),
    ensures
        gen_pow(d) != 1,
    decreases d,
{
    if gen_pow(d) != 1 {
        return;
    }
    let n = group_order();
    let q = n / d;
    let r = n % d;
    lemma_fundamental_div_mod(n as int, d as int);
    lemma_generator_powers();
    lemma_period(d, q, r);
    assert(gen_pow(r) == 1);
    if r > 0 {
        lemma_no_small_period(r);
    } else {
        assert(n == d * q);
        assert(q >= 2) by (nonlinear_arith)
            requires
                n == d * q,
                0 < d < n,
        ;
        lemma_mul_is_commutative(d as int, q as int);
        lemma_mod_multiples_basic(d as int, q as int);
        lemma_small_prime_factor(q as int);
        let f: int = if q % 2 == 0 { 2 } else if q % 3 == 0 { 3 } else { 5 };
        let s = q / (f as nat);
        lemma_fundamental_div_mod(q as int, f);
        assert(n == f * (d * s)) by (nonlinear_arith)
            requires
                n == d * q,
                q == f * s,
        ;
        lemma_period(d, s, 0);
        lemma_fpow_small(31);
        assert(gen_pow(d * s) == 1);
    }
}

/// The powers `31^0, ..., 31^(P-2)` are pairwise distinct.
proof fn lemma_distinct_powers(i: nat, j: nat)
    requires
        i < j < group_order(),
    ensures
        gen_pow(i) != gen_pow(j),
{
    if gen_pow(i) == gen_pow(j) {
        let n = group_order();
        let d = (j - i) as nat;
        lemma_generator_powers();
        lemma_fpow_adds(31, i, d);
        lemma_fpow_adds(31, (n - i) as nat, i);
        lemma_fmul_associative(gen_pow((n - i) as nat), gen_pow(i), gen_pow(d));
        lemma_modp_bound(pow(31, d));
        lemma_modp_small(gen_pow(d));
        lemma_no_small_period(d);
    }
}

/// Every power of `31` below `P - 1` is nonzero and canonical.
proof fn lemma_power_nonzero(i: nat)
    requires
        i < group_order(),
    ensures
        0 < gen_pow(i) < P,
{
    let n = group_order();
    lemma_generator_powers();
    lemma_fpow_adds(31, i, (n - i) as nat);
    assert(i + (n - i) as nat == n);
    lemma_modp_bound(pow(31, i));
    lemma_modp_small(0);
    if gen_pow(i) == 0 {
        vstd::arithmetic::mul::lemma_mul_basics(gen_pow((n - i) as nat));
        assert(fmul(0, gen_pow((n - i) as nat)) == 0);
    }
}

/// Every nonzero field element is a power of `31`.
proof fn lemma_generator_surjective(x: int)
    requires
        0 < x < P,
    ensures
        exists|i: nat| i < group_order() && #[trigger] gen_pow(i) == x,
{
    let n = group_order() as int;
    let f = |i: int| gen_pow(i as nat);
    let dom = set_int_range(0, n);
    let img = dom.map(f);
    let units = set_int_range(1, P as int);
    lemma_int_range(0, n);
    lemma_int_range(1, P as int);
    assert(injective_on(f, dom)) by {
        assert forall|a: int, b: int| dom.contains(a) && dom.contains(b) && #[trigger] f(a) == #[trigger] f(b) implies a == b by {
            if a < b {
                lemma_distinct_powers(a as nat, b as nat);
            } else if b < a {
                lemma_distinct_powers(b as nat, a as nat);
            }
        }
    }
    lemma_map_size(dom, img, f);
    assert(img.subset_of(units)) by {
        assert forall|y: int| img.contains(y) implies units.contains(y) by {
            let i = choose|i: int| dom.contains(i) && f(i) == y;
            lemma_power_nonzero(i as nat);
        }
    }
    lemma_subset_equality(img, units);
    assert(units.contains(x));
    let i = choose|i: int| dom.contains(i) && f(i) == x;
    assert(gen_pow(i as nat) == x);
}

/// Fermat's little theorem: `a^(P-1) = 1` for every nonzero `a`.
pub proof fn lemma_fermat(a: int)
    requires
        0 < a < P,
    ensures
        fpow(a, group_order()) == 1,
{
    lemma_generator_surjective(a);
    let i = choose|i: nat| i < group_order() && #[trigger] gen_pow(i) == a;
    lemma_fpow_multiplies(31, i, group_order());
    lemma_mul_is_commutative(i as int, group_order() as int);
    lemma_fpow_multiplies(31, group_order(), i);
    lemma_generator_powers();
    lemma1_pow(i);
    lemma_modp_small(1);
}

/// `a^(P-2)` is the inverse of every nonzero `a`.
pub proof fn lemma_inverse(a: int)
    requires
        0 < a < P,
    ensures
        fmul(fpow(a, (P - 2) as nat), a) == 1,
{
    lemma_fermat(a);
    lemma_fpow_small(a);
    lemma_fpow_adds(a, (P - 2) as nat, 1);
}

} // verus!
