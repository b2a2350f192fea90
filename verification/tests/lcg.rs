use python_executor::lcg::LCG;

#[test]
fn lcg_first_values_from_seed_one() {
    let mut g = LCG::new(1);
    assert_eq!(g.next(u64::MAX), 12640960);
    assert_eq!(g.next(u64::MAX), 8124035);
    assert_eq!(g.next(u64::MAX), 4294458);
}

#[test]
fn lcg_masks_with_bitwise_and() {
    let mut g = LCG::new(1);
    assert_eq!(g.next(400), 128);
    assert_eq!(g.next(400), 128);
    assert_eq!(g.next(400), 272);
}

#[test]
fn lcg_is_deterministic() {
    let mut a = LCG::new(77);
    let mut b = LCG::new(77);
    for _ in 0..100 {
        assert_eq!(a.next(0xffff), b.next(0xffff));
    }
}

#[test]
fn lcg_stays_below_modulus() {
    let mut g = LCG::new(123456789);
    for _ in 0..1000 {
        assert!(g.next(u64::MAX) < 16777216);
    }
}

#[test]
fn lcg_takes_the_largest_seed() {
    let mut g = LCG::new(u64::MAX);
    assert_eq!(g.next(u64::MAX), 12999366);
}

#[test]
fn lcg_from_zero_gives_the_increment() {
    let mut g = LCG::new(0);
    assert_eq!(g.next(u64::MAX), 12820163);
}

#[test]
fn lcg_with_zero_mask_gives_zero() {
    let mut g = LCG::new(5);
    assert_eq!(g.next(0), 0);
}
