use microbench::rng::Rng;
use microbench::rng::random_values;

#[test]
fn fixed_seed_reproduces_known_sequence() {
    let mut r = Rng::new(123456789);
    assert_eq!(r.next_u64(), 17131907776045769687);
    assert_eq!(r.next_u64(), 9120621550721899595);
    assert_eq!(r.next_u64(), 5237368999691878260);
    assert_eq!(r.next_u64(), 2352804886863130741);
    assert_eq!(r.next_u64(), 11490144281350267834);
}

#[test]
fn two_generators_with_equal_seeds_agree() {
    let mut a = Rng::new(987654321);
    let mut b = Rng::new(987654321);
    for _ in 0..100 {
        assert_eq!(a.next_u64(), b.next_u64());
    }
}

#[test]
fn u64_method_matches_next_u64() {
    let mut a = Rng::new(2024);
    let mut b = Rng::new(2024);
    for _ in 0..32 {
        assert_eq!(a.u64(), b.next_u64());
    }
}

#[test]
fn seed_zero_falls_back_to_fixed_constant() {
    let mut z = Rng::seed(0);
    assert_eq!(z.state, 0x123456789ABCDEF0);
    assert_eq!(z.next_u64(), 13257192714554721081);
    assert_eq!(z.next_u64(), 4827567639995753044);
    assert_eq!(z.next_u64(), 9465840344385014118);
}

#[test]
fn seed_nonzero_is_kept() {
    let r = Rng::seed(123456789);
    assert_eq!(r.state, 123456789);
}

#[test]
fn stream_is_restartable_from_intermediate_state() {
    let mut whole = Rng::new(55555);
    let mut first = Rng::new(55555);
    for _ in 0..7 {
        first.next_u64();
    }
    let mut resumed = Rng::new(first.state);
    for _ in 0..7 {
        whole.next_u64();
    }
    for _ in 0..20 {
        assert_eq!(resumed.next_u64(), whole.next_u64());
    }
}

#[test]
fn next_u53_is_top_bits_of_draw() {
    let mut a = Rng::new(42);
    let mut b = Rng::new(42);
    let bits = a.next_u53();
    assert_eq!(bits, b.next_u64() >> 11);
    assert_eq!(bits, 3054208537211764);
    assert!(bits < (1u64 << 53));
}

#[test]
fn random_values_matches_repeated_draws() {
    let v = random_values(123456789, 40);
    assert_eq!(v.len(), 40);
    let mut r = Rng::new(123456789);
    for x in v {
        assert_eq!(x, r.next_u64());
    }
}
