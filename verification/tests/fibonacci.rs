use microbench::fib::fib_iter;
use microbench::fib::fib_sum_sink;
use microbench::fib::fib_xor_sink;

#[test]
fn small_values_match_the_sequence() {
    assert_eq!(fib_iter(0), 0);
    assert_eq!(fib_iter(1), 1);
    assert_eq!(fib_iter(2), 1);
    assert_eq!(fib_iter(3), 2);
    assert_eq!(fib_iter(10), 55);
    assert_eq!(fib_iter(20), 6765);
}

#[test]
fn default_size_value() {
    assert_eq!(fib_iter(90), 2880067194370816120);
}

#[test]
fn large_indices_wrap_modulo_two_to_the_64() {
    // The 93rd entry is the last that fits; the 94th wraps.
    assert_eq!(fib_iter(93), 12200160415121876738);
    // True value 19740274219868223167 minus 2^64.
    assert_eq!(fib_iter(94), 1293530146158671551);
    let direct = fib_iter(93).wrapping_add(fib_iter(92));
    assert_eq!(fib_iter(94), direct);
}

#[test]
fn xor_sink_single_run() {
    assert_eq!(fib_xor_sink(10, 0), 55);
}

#[test]
fn xor_sink_parity_collapse() {
    assert_eq!(fib_xor_sink(10, 1), 55);
    assert_eq!(fib_xor_sink(10, 2), 0);
    assert_eq!(fib_xor_sink(10, 7), 55);
    assert_eq!(fib_xor_sink(10, 8), 0);
}

#[test]
fn sum_sink_accumulates_upper_value() {
    // Each repetition adds the 11th entry, 89.
    assert_eq!(fib_sum_sink(10, 5), 445);
    assert_eq!(fib_sum_sink(10, 0), 0);
    assert_eq!(fib_sum_sink(0, 3), 3);
}
