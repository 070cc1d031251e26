use baby_bear::{BabyBear, MontyBabyBear, PackedBabyBear, P};
use rand::rngs::SmallRng;
use rand::{Rng, SeedableRng};

fn draw(rng: &mut SmallRng) -> BabyBear {
    loop {
        if let Some(x) = BabyBear::sample_candidate(rng.gen::<u32>()) {
            return x;
        }
    }
}

fn reference_mul(a: u32, b: u32) -> u32 {
    ((a as u64 * b as u64) % P as u64) as u32
}

#[test]
fn literal_vectors() {
    assert_eq!(P, 2013265921);
    assert_eq!(BabyBear::ORDER_U32, 2013265921);
    let five = BabyBear::new(5);
    assert_eq!(five.inverse() * five, BabyBear::one());
    assert_eq!(five.exp_u64(1000).as_canonical_u32(), 589699054);
    assert_eq!(BabyBear::neg_one().as_canonical_u32(), 2013265920);
    assert_eq!((-BabyBear::one()).as_canonical_u32(), 2013265920);
    assert_eq!(BabyBear::generator().as_canonical_u32(), 31);
}

#[test]
fn try_inverse_of_zero_is_none() {
    assert_eq!(BabyBear::zero().try_inverse(), None);
    assert_eq!(BabyBear::one().try_inverse(), Some(BabyBear::one()));
    assert_eq!(BabyBear::neg_one().try_inverse(), Some(BabyBear::neg_one()));
}

#[test]
fn inverse_law() {
    let mut rng = SmallRng::seed_from_u64(1);
    for _ in 0..10_000 {
        let a = draw(&mut rng);
        if a != BabyBear::zero() {
            assert_eq!(a.try_inverse().unwrap() * a, BabyBear::one());
            assert_eq!(a / a, BabyBear::one());
        }
    }
}

#[test]
fn field_axioms() {
    let mut rng = SmallRng::seed_from_u64(3);
    for _ in 0..1_000 {
        let (a, b, c) = (draw(&mut rng), draw(&mut rng), draw(&mut rng));
        assert_eq!(a + b, b + a);
        assert_eq!(a * b, b * a);
        assert_eq!(a + (b + c), (a + b) + c);
        assert_eq!(a * (b * c), (a * b) * c);
        assert_eq!(a * (b + c), a * b + a * c);
        assert_eq!(a + (-a), BabyBear::zero());
        assert_eq!((a + b) - b, a);
    }
}

#[test]
fn arithmetic_matches_integers() {
    let a = BabyBear::new(P - 1);
    let b = BabyBear::new(2);
    assert_eq!((a + b).as_canonical_u32(), 1);
    assert_eq!((b - a).as_canonical_u32(), 3);
    assert_eq!((a * a).as_canonical_u32(), 1);
    assert_eq!(a.square(), BabyBear::one());
    assert_eq!(BabyBear::new(P + 3).as_canonical_u32(), 3);
    assert_eq!(BabyBear::from_wrapped_u64(u64::MAX).as_canonical_u64(), u64::MAX % P as u64);
    assert_eq!(BabyBear::from_canonical_u64(7).as_canonical_u32(), 7);
    assert_eq!(BabyBear::from_bool(true), BabyBear::one());
    assert_eq!(BabyBear::from_bool(false), BabyBear::zero());
    assert_eq!(BabyBear::default(), BabyBear::zero());
    let mut x = BabyBear::two();
    x += BabyBear::one();
    x *= BabyBear::two();
    x -= BabyBear::one();
    assert_eq!(x.as_canonical_u32(), 5);
}

#[test]
fn powers() {
    let g = BabyBear::generator();
    assert_eq!(g.exp_power_of_2(3), g.exp_u64(8));
    assert_eq!(g.exp_u64(0), BabyBear::one());
    assert_eq!(g.exp_u64((P - 1) as u64), BabyBear::one());
    assert_eq!(BabyBear::new(3).mul_2exp_u64(5).as_canonical_u32(), 96);
    let big = BabyBear::new(3).mul_2exp_u64(100);
    assert_eq!(big, BabyBear::new(3) * BabyBear::two().exp_u64(100));
}

#[test]
fn two_adic_generator_order() {
    let g = BabyBear::two_adic_generator(27);
    assert_eq!(g.exp_power_of_2(27), BabyBear::one());
    assert_ne!(g.exp_power_of_2(26), BabyBear::one());
    assert_eq!(BabyBear::two_adic_generator(0), BabyBear::one());
    assert_eq!(BabyBear::two_adic_generator(1), BabyBear::neg_one());
    for bits in 1..=27 {
        let h = BabyBear::two_adic_generator(bits);
        assert_eq!(h.exp_power_of_2(bits), BabyBear::one());
        assert_ne!(h.exp_power_of_2(bits - 1), BabyBear::one());
    }
}

#[test]
fn linear_combination() {
    let u = [3u64, 5, 1u64 << 31];
    let v = [BabyBear::new(P - 1), BabyBear::new(10), BabyBear::new(P - 2)];
    let expected = (3u128 * (P - 1) as u128 + 50 + (1u128 << 31) * (P - 2) as u128) % P as u128;
    assert_eq!(BabyBear::linear_combination_u64(u, &v).as_canonical_u64() as u128, expected);
    assert_eq!(BabyBear::linear_combination_u64::<0>([], &[]), BabyBear::zero());
}

#[test]
fn sample_candidate_rejects_values_at_or_above_p() {
    assert_eq!(BabyBear::sample_candidate(0), Some(BabyBear::zero()));
    assert_eq!(BabyBear::sample_candidate(P - 1), Some(BabyBear::new(P - 1)));
    assert_eq!(BabyBear::sample_candidate(P), None);
    assert_eq!(BabyBear::sample_candidate(0x7fff_ffff), None);
    // The top bit is dropped.
    assert_eq!(BabyBear::sample_candidate(0x8000_0005), Some(BabyBear::new(5)));
}

#[test]
fn uniformity_bound() {
    let mut rng = SmallRng::seed_from_u64(5);
    for _ in 0..1_000_000 {
        assert!(draw(&mut rng).as_canonical_u32() < P);
    }
}

#[test]
fn representation_equivalence() {
    let mut rng = SmallRng::seed_from_u64(9);
    for _ in 0..10_000 {
        let (x, y) = (draw(&mut rng), draw(&mut rng));
        let (mx, my) = (MontyBabyBear::from_base(x), MontyBabyBear::from_base(y));
        assert_eq!((mx + my).to_base(), x + y);
        assert_eq!((mx - my).to_base(), x - y);
        assert_eq!((mx * my).to_base(), x * y);
        assert_eq!((-mx).to_base(), -x);
        assert_eq!(mx.square().to_base(), x.square());
        assert_eq!(mx.to_base(), x);
        assert_eq!((mx * my).to_base().as_canonical_u32(), reference_mul(x.as_canonical_u32(), y.as_canonical_u32()));
    }
    assert_eq!(MontyBabyBear::one().to_base(), BabyBear::one());
    assert_eq!(MontyBabyBear::zero().to_base(), BabyBear::zero());
}

#[test]
fn montgomery_reduction_values() {
    // R^-1 mod P = 943718400, so reducing 1 gives it, and reducing R gives 1.
    assert_eq!(baby_bear::monty::monty_reduce(1), 943718400);
    assert_eq!(baby_bear::monty::monty_reduce(1u64 << 32), 1);
    assert_eq!(baby_bear::monty::monty_reduce(0), 0);
}

#[test]
fn packed_equivalence() {
    let mut rng = SmallRng::seed_from_u64(4);
    for _ in 0..10_000 {
        let a = [draw(&mut rng), draw(&mut rng), draw(&mut rng), draw(&mut rng)];
        let b = [draw(&mut rng), draw(&mut rng), draw(&mut rng), draw(&mut rng)];
        let (pa, pb) = (PackedBabyBear::from_lanes(a), PackedBabyBear::from_lanes(b));
        let (sum, diff, prod, sq, neg) = (pa + pb, pa - pb, pa * pb, pa.square(), -pa);
        for i in 0..4 {
            assert_eq!(sum.lane(i), a[i] + b[i]);
            assert_eq!(diff.lane(i), a[i] - b[i]);
            assert_eq!(prod.lane(i), a[i] * b[i]);
            assert_eq!(sq.lane(i), a[i].square());
            assert_eq!(neg.lane(i), -a[i]);
        }
        assert_eq!(pa.lanes(), a);
    }
    let x = BabyBear::new(42);
    assert_eq!(PackedBabyBear::broadcast(x).lanes(), [x; 4]);
}

#[test]
fn mul_reduces_modulo_p() {
    assert_eq!(baby_bear::mul(P - 1, P - 1), 1);
    assert_eq!(baby_bear::mul(u32::MAX, u32::MAX), ((u32::MAX as u64 * u32::MAX as u64) % P as u64) as u32);
    assert_eq!(baby_bear::mul(5, 7), 35);
}
