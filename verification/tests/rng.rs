use particles::rng::Rng;

#[test]
fn xorshift_first_draws_from_fixed_seed() {
    let mut r = Rng::new(1312);
    assert_eq!(r.gen(), 709970840874);
    assert_eq!(r.gen(), 9246467436777199920);
    assert_eq!(r.gen(), 13471595569332400514);
    assert_eq!(r.gen(), 2353425663418040417);
}

#[test]
fn xorshift_state_equals_last_draw() {
    let mut r = Rng::new(42);
    let a = r.gen();
    assert_eq!(r.seed, a);
    let b = r.gen();
    assert_eq!(r.seed, b);
    assert_ne!(a, b);
}

#[test]
fn gen_range_first_values_from_fixed_seed() {
    let mut r = Rng::new(1312);
    // First draw is tiny relative to 2^64, so it lands on the range floor.
    assert_eq!(r.gen_range(-10, 10), -10);
    assert_eq!(r.gen_range(30, 40), 35);
}

#[test]
fn gen_range_stays_inside_half_open_range() {
    let mut r = Rng::new(987654321);
    for _ in 0..1000 {
        let v = r.gen_range(-10, 10);
        assert!((-10..10).contains(&v));
        let w = r.gen_range(30, 40);
        assert!((30..40).contains(&w));
    }
}

#[test]
fn equal_seeds_replay_identically() {
    let mut a = Rng::new(1312);
    let mut b = Rng::new(1312);
    for _ in 0..100 {
        assert_eq!(a.gen(), b.gen());
    }
}
