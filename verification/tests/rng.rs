use pyroclear::rng::Rng;

#[test]
fn seeds_and_first_values() {
    let mut rng = Rng::from_clock(0, 0);
    assert_eq!(rng.next_u64(), 1082269761);
    assert_eq!(rng.next_u64(), 1152992998833853505);
    assert_eq!(rng.range(1, 4), 2);
    assert_eq!(rng.range(-2, 0), 0);

    let mut rng = Rng::from_clock(1700000000, 123456789);
    assert_eq!(rng.next_u64(), 5952085080791523957);
    assert_eq!(rng.next_u64(), 10441234886495693169);

    let mut rng = Rng::from_clock(5, 999999999);
    assert_eq!(rng.next_u64(), 10281244044854179515);
    assert_eq!(rng.next_u64(), 245868683842927638);
    assert_eq!(rng.range(1, 4), 3);
    assert_eq!(rng.range(-2, 0), -2);
}

#[test]
fn seeding_is_repeatable() {
    let mut a = Rng::from_clock(42, 7);
    let mut b = Rng::from_clock(42, 7);
    for _ in 0..100 {
        assert_eq!(a.next_u64(), b.next_u64());
    }
}

#[test]
fn draws_of_one_digit() {
    let mut rng = Rng::from_clock(0, 0);
    let digits: Vec<i32> = (0..10).map(|_| rng.range(0, 9)).collect();
    assert_eq!(digits, vec![1, 5, 7, 5, 3, 9, 1, 3, 9, 8]);
}

#[test]
fn draws_stay_between_their_bounds() {
    let mut rng = Rng::from_clock(99, 1);
    let mut seen = [false; 5];
    for _ in 0..1000 {
        let value = rng.range(2, 6);
        assert!((2..=6).contains(&value));
        seen[(value - 2) as usize] = true;
    }
    assert!(seen.iter().all(|&s| s));
    assert_eq!(rng.range(7, 7), 7);
    let widest = rng.range(1, i32::MAX);
    assert!(widest >= 1);
}

#[test]
fn reversed_bounds_wrap_around() {
    let mut rng = Rng::from_clock(0, 0);
    assert_eq!(rng.range(5, 0), 5 + 1082269761);
}

#[test]
fn a_clock_seed_never_gets_stuck() {
    let mut rng = Rng::new();
    for _ in 0..1000 {
        assert_ne!(rng.next_u64(), 0);
    }
    let mut rng = Rng::default();
    assert_ne!(rng.next_u64(), 0);
}
