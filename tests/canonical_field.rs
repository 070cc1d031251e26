use baby_bear::{Elem, ExtElem, P};
use rand::rngs::SmallRng;
use rand::SeedableRng;

const P_U64: u64 = P as u64;

fn non_zero_rand(rng: &mut SmallRng) -> Elem {
    loop {
        let val = Elem::random(rng);
        if val != Elem::zero() {
            return val;
        }
    }
}

#[test]
fn roots_of_unity() {
    let mut cur: Option<Elem> = None;
    for k in (0..=Elem::MAX_ROU_PO2).rev() {
        let rou = Elem::rou_fwd(k);
        if let Some(curval) = cur.as_mut() {
            *curval = *curval * *curval;
            assert_eq!(*curval, rou);
        } else {
            cur = Some(rou);
        }
    }
    assert_eq!(cur, Some(Elem::one()));

    for k in 0..=Elem::MAX_ROU_PO2 {
        assert_eq!(Elem::rou_fwd(k) * Elem::rou_rev(k), Elem::one());
    }
}

#[test]
fn field_ops() {
    let p: u128 = P_U64 as u128;
    let to_u64 = |x: Elem| -> u64 { x.into() };

    assert_eq!(to_u64(Elem::from(0u64)), 0);
    assert_eq!(to_u64(Elem::from(P_U64 + 1)), 1);
    assert_eq!(to_u64(Elem::from(P_U64 - 1)), P_U64 - 1);
    assert_eq!(to_u64(Elem::from(P_U64) - Elem::from(1u64)), P_U64 - 1);
    assert_eq!(to_u64(Elem::from(P_U64 - 1) + Elem::from(1u64)), 0);

    let mut rng = SmallRng::seed_from_u64(2);
    for _ in 0..1_000 {
        let x = non_zero_rand(&mut rng);
        let y = non_zero_rand(&mut rng);
        let xi = to_u64(x) as u128;
        let yi = to_u64(y) as u128;
        assert_eq!(to_u64(x + y) as u128, (xi + yi) % p);
        assert_eq!(to_u64(x * y) as u128, (xi * yi) % p);
        assert_eq!(to_u64(x - y) as u128, (xi + p - yi) % p);
        let xinv = x.inv().unwrap();
        if x != Elem::one() {
            assert!(to_u64(xinv) as u128 != xi);
        }
        assert_eq!(xinv * x, Elem::one());
    }
}

#[test]
fn isa_field() {
    let mut rng = SmallRng::seed_from_u64(2);
    // Pick random sets of 3 elements of ExtElem, and verify they meet the
    // requirements of a field.
    for _ in 0..1_000 {
        let a = ExtElem::random(&mut rng);
        let b = ExtElem::random(&mut rng);
        let c = ExtElem::random(&mut rng);
        // Addition + multiplication commute
        assert_eq!(a + b, b + a);
        assert_eq!(a * b, b * a);
        // Addition + multiplication are associative
        assert_eq!(a + (b + c), (a + b) + c);
        assert_eq!(a * (b * c), (a * b) * c);
        // Distributive property
        assert_eq!(a * (b + c), a * b + a * c);
        // Inverses
        if a != ExtElem::zero() {
            assert_eq!(a.inv().unwrap() * a, ExtElem::from(1u32));
        }
        assert_eq!(ExtElem::zero() - a, -a);
        assert_eq!(a + (-a), ExtElem::zero());
    }
}

#[test]
fn inv() {
    // Smoke test for inv
    assert_eq!(Elem::new(5).inv().unwrap() * Elem::new(5), Elem::new(1));
}

#[test]
fn pow() {
    // Smoke tests for pow
    assert_eq!(Elem::new(5).pow(0), Elem::new(1));
    assert_eq!(Elem::new(5).pow(1), Elem::new(5));
    assert_eq!(Elem::new(5).pow(2), Elem::new(25));
    // Mathematica says PowerMod[5, 1000, 15*2^27 + 1] == 589699054
    assert_eq!(Elem::new(5).pow(1000), Elem::new(589699054));
    assert_eq!(Elem::new(5).pow((P - 2) as usize) * Elem::new(5), Elem::new(1));
    assert_eq!(Elem::new(5).pow((P - 1) as usize), Elem::new(1));
}

#[test]
fn compare_native() {
    // Compare core operations against simple % P implementations
    let mut rng = SmallRng::seed_from_u64(2);
    for _ in 0..100_000 {
        let fa = Elem::random(&mut rng);
        let fb = Elem::random(&mut rng);
        let a: u64 = fa.into();
        let b: u64 = fb.into();
        assert_eq!(fa + fb, Elem::from(a + b));
        assert_eq!(fa - fb, Elem::from(a + (P_U64 - b)));
        assert_eq!(fa * fb, Elem::from(a * b));
    }
}

#[test]
fn zero_has_no_inverse() {
    assert_eq!(Elem::zero().inv(), None);
    assert_eq!(ExtElem::zero().inv(), None);
}

#[test]
fn ext_mul_by_x_and_x_cubed() {
    let one = ExtElem::new(Elem::new(1), Elem::new(0), Elem::new(0), Elem::new(0));
    let x = ExtElem::new(Elem::new(0), Elem::new(1), Elem::new(0), Elem::new(0));
    assert_eq!(one * x, x);
    // X^3 * X^3 = X^6 = beta * X^2.
    let x3 = ExtElem::new(Elem::new(0), Elem::new(0), Elem::new(0), Elem::new(1));
    let expected = ExtElem::new(Elem::new(0), Elem::new(0), Elem::new(11), Elem::new(0));
    assert_eq!(x3 * x3, expected);
    // X * X^3 = X^4 = beta.
    assert_eq!(x * x3, ExtElem::from_u32(11));
}

#[test]
fn ext_mul_formula_on_words() {
    let a = [1u32, 2, 3, 4];
    let b = [5u32, 6, 7, 8];
    // r0 = 1*5 + 11*(2*8 + 3*7 + 4*6) = 676, r1 = 1*6 + 2*5 + 11*(3*8 + 4*7) = 588,
    // r2 = 1*7 + 2*6 + 3*5 + 11*(4*8) = 386, r3 = 1*8 + 2*7 + 3*6 + 4*5 = 60.
    assert_eq!(baby_bear::ext_mul(a, b), [676, 588, 386, 60]);
    // Words are read modulo P.
    assert_eq!(baby_bear::ext_mul([P + 1, 0, 0, 0], [P - 1, 0, 0, P]), [P - 1, 0, 0, 0]);
}

#[test]
fn ext_pow_and_words() {
    let a = ExtElem::new(Elem::new(3), Elem::new(1), Elem::new(4), Elem::new(1));
    assert_eq!(a.pow(0), ExtElem::one());
    assert_eq!(a.pow(1), a);
    assert_eq!(a.pow(5), a * a * a * a * a);
    let words = a.to_u32_words();
    assert_eq!(words, vec![3, 1, 4, 1]);
    assert_eq!(ExtElem::from_u32_words(&words), a);
    assert_eq!(ExtElem::from_subelems(a.elems()), a);
    assert_eq!(a.const_part(), Elem::new(3));
    assert_eq!(ExtElem::from_fp(Elem::new(7)), ExtElem::from(7u32));
    assert_eq!(a * Elem::new(2), ExtElem::new(Elem::new(6), Elem::new(2), Elem::new(8), Elem::new(2)));
}

#[test]
fn elem_words_and_conversions() {
    let e = Elem::new(P + 5);
    assert_eq!(e, Elem::new(5));
    assert_eq!(e.to_u32_words(), vec![5]);
    assert_eq!(Elem::from_u32_words(&[P + 9]), Elem::new(9));
    assert_eq!(u32::from(Elem::new(12)), 12);
    assert_eq!(Elem::from(u64::MAX), Elem::new((u64::MAX % P_U64) as u32));
    assert_eq!(-Elem::new(1), Elem::new(P - 1));
    assert_eq!(-Elem::new(0), Elem::new(0));
}

#[test]
fn random_words_are_combined_big_endian() {
    // 1 * 2^32 + 2 = 4294967298 = 2 * P + 268435456.
    assert_eq!(Elem::from_random_words(&[0, 0, 0, 0, 1, 2]), Elem::new(268435456));
    assert_eq!(Elem::from_random_words(&[0, 0, 0, 0, 0, 7]), Elem::new(7));
}

#[test]
fn random_draws_are_canonical_and_vary() {
    let mut rng = SmallRng::seed_from_u64(7);
    let first = Elem::random(&mut rng);
    let mut differs = false;
    for _ in 0..1_000_000 {
        let x = Elem::random(&mut rng);
        assert!(u32::from(x) < P);
        differs |= x != first;
    }
    assert!(differs);
}

#[test]
fn ext_inverse_law() {
    let mut rng = SmallRng::seed_from_u64(11);
    for _ in 0..10_000 {
        let a = ExtElem::random(&mut rng);
        if a != ExtElem::zero() {
            assert_eq!(a.inv().unwrap() * a, ExtElem::one());
        }
    }
}
