use microbench::sorting::checksum_stride;
use microbench::sorting::sort_batch;
use microbench::sorting::sort_trial;
use microbench::sorting::sort_u64;
use microbench::sorting::xor_checksum;
use microbench::rng::random_values;

// The seed the sort benchmark starts its generator from.
const SORT_SEED: u64 = 88172645463393265;

#[test]
fn sorting_yields_nondecreasing_order() {
    let mut v = vec![5u64, 3, 8, 1, 9, 2, 2, 7];
    sort_u64(&mut v);
    assert_eq!(v, vec![1, 2, 2, 3, 5, 7, 8, 9]);
    for w in v.windows(2) {
        assert!(w[0] <= w[1]);
    }
}

#[test]
fn sorting_random_input_keeps_all_values() {
    let mut v = random_values(SORT_SEED, 200);
    let mut expected = v.clone();
    sort_u64(&mut v);
    expected.sort_unstable();
    assert_eq!(v, expected);
}

#[test]
fn sorting_empty_and_singleton() {
    let mut e: Vec<u64> = vec![];
    sort_u64(&mut e);
    assert!(e.is_empty());
    let mut s = vec![7u64];
    sort_u64(&mut s);
    assert_eq!(s, vec![7]);
}

#[test]
fn stride_is_a_sixteenth_but_at_least_one() {
    assert_eq!(checksum_stride(100000), 6250);
    assert_eq!(checksum_stride(64), 4);
    assert_eq!(checksum_stride(16), 1);
    assert_eq!(checksum_stride(10), 1);
    assert_eq!(checksum_stride(0), 1);
}

#[test]
fn checksum_folds_every_strided_element() {
    let v = vec![1u64, 2, 3, 4, 5, 6];
    assert_eq!(xor_checksum(&v, 1), 1 ^ 2 ^ 3 ^ 4 ^ 5 ^ 6);
    assert_eq!(xor_checksum(&v, 2), 1 ^ 3 ^ 5);
    assert_eq!(xor_checksum(&v, 5), 1 ^ 6);
    assert_eq!(xor_checksum(&v, 6), 1);
    let empty: Vec<u64> = vec![];
    assert_eq!(xor_checksum(&empty, 3), 0);
}

#[test]
fn trial_checksum_is_reproducible_from_the_seed() {
    assert_eq!(sort_trial(SORT_SEED, 64), 13991353798494106569);
    assert_eq!(sort_trial(SORT_SEED, 64), 13991353798494106569);
    assert_eq!(sort_trial(SORT_SEED, 10), 9423583354565318575);
}

#[test]
fn checksum_depends_on_sorted_order() {
    // Unsorted, the same stride reads different elements.
    let v = random_values(SORT_SEED, 64);
    let unsorted = xor_checksum(&v, checksum_stride(64));
    assert_ne!(unsorted, sort_trial(SORT_SEED, 64));
}

#[test]
fn batch_fold_collapses_by_parity() {
    let one = sort_trial(SORT_SEED, 32);
    assert_eq!(sort_batch(SORT_SEED, 32, 1), one);
    assert_eq!(sort_batch(SORT_SEED, 32, 3), one);
    assert_eq!(sort_batch(SORT_SEED, 32, 2), 0);
    assert_eq!(sort_batch(SORT_SEED, 32, 0), 0);
}
