//! Iterative Fibonacci with 64-bit wraparound semantics.
//!
//! The benchmark computes the n-th Fibonacci number in an O(n) loop over a
//! pair of running values. Overflow is not an error: every addition wraps
//! modulo 2^64, so the kernel is total and its result for large n is the
//! mathematical Fibonacci number reduced modulo 2^64.

use vstd::prelude::*;

verus! {

/// One past the largest `u64`, the modulus of 64-bit wrapping arithmetic.
pub open spec fn u64_modulus() -> nat {
    0x1_0000_0000_0000_0000
}

/// The Fibonacci sequence under 64-bit wrapping addition: entry 0 is 0,
/// entry 1 is 1, and every later entry is the wrapping sum of the two before.
pub open spec fn fib_wrapped(n: nat) -> u64
    decreases n,
{
    if n == 0 {
        0
    } else if n == 1 {
        1
    } else {
        vstd::wrapping::u64_specs::wrapping_add(
            fib_wrapped((n - 1) as nat),
            fib_wrapped((n - 2) as nat),
        )
    }
}

/// The mathematical Fibonacci sequence over unbounded naturals.
pub open spec fn fib_nat(n: nat) -> nat
    decreases n,
{
    if n == 0 {
        0
    } else if n == 1 {
        1
    } else {
        fib_nat((n - 1) as nat) + fib_nat((n - 2) as nat)
    }
}

/// Wrapping 64-bit addition is addition modulo 2^64.
pub proof fn lemma_wrapping_add_is_mod(x: u64, y: u64)
    ensures
        vstd::wrapping::u64_specs::wrapping_add(x, y) == (x + y) % (u64_modulus() as int),
{
    let m = u64_modulus() as int;
    if x + y > u64::MAX {
        vstd::arithmetic::div_mod::lemma_mod_sub_multiples_vanish(x + y - m, m);
        vstd::arithmetic::div_mod::lemma_small_mod((x + y - m) as nat, m as nat);
    } else {
        vstd::arithmetic::div_mod::lemma_small_mod((x + y) as nat, m as nat);
    }
}

/// The wrapping Fibonacci kernel agrees with the mathematical Fibonacci
/// number reduced modulo 2^64, so silent 64-bit wraparound is exactly
/// modular arithmetic and not an accident of the loop.
pub proof fn lemma_fib_wrapped_is_fib_mod(n: nat)
    ensures
        fib_wrapped(n) == fib_nat(n) % u64_modulus(),
    decreases n,
{
    if n >= 2 {
        lemma_fib_wrapped_is_fib_mod((n - 1) as nat);
        lemma_fib_wrapped_is_fib_mod((n - 2) as nat);
        let m = u64_modulus() as int;
        let a = fib_nat((n - 1) as nat) as int;
        let b = fib_nat((n - 2) as nat) as int;
        vstd::arithmetic::div_mod::lemma_add_mod_noop(a, b, m);
        lemma_wrapping_add_is_mod(fib_wrapped((n - 1) as nat), fib_wrapped((n - 2) as nat));
    } else {
        vstd::arithmetic::div_mod::lemma_small_mod(fib_nat(n), u64_modulus());
    }
}

/// Computes the n-th entry of the wrapping Fibonacci sequence by iterating
/// the two-term recurrence n times.
pub fn fib_iter(n: u64) -> (r: u64)
    ensures
        r == fib_wrapped(n as nat),
{
    let mut a: u64 = 0;
    let mut b: u64 = 1;
    let mut i: u64 = 0;
    while i < n
        invariant
            i <= n,
            a == fib_wrapped(i as nat),
            b == fib_wrapped((i + 1) as nat),
        decreases n - i,
    {
        let t = a.wrapping_add(b);
        a = b;
        b = t;
        i = i + 1;
    }
    a
}

/// The sink of the plain Fibonacci driver: one kernel run when `inner` is
/// zero, otherwise the XOR fold of `inner` identical kernel runs, which
/// collapses to the value itself for an odd count and to zero for an even
/// one.
pub fn fib_xor_sink(n: u64, inner: u64) -> (s: u64)
    ensures
        s == if inner % 2 == 1 || inner == 0 {
            fib_wrapped(n as nat)
        } else {
            0u64
        },
{
    if inner == 0 {
        return fib_iter(n);
    }
    let mut s: u64 = 0;
    let mut i: u64 = 0;
    while i < inner
        invariant
            i <= inner,
            s == if i % 2 == 1 {
                fib_wrapped(n as nat)
            } else {
                0u64
            },
        decreases inner - i,
    {
        let f = fib_iter(n);
        proof {
            assert(f ^ f == 0) by (bit_vector);
            assert(0u64 ^ f == f) by (bit_vector);
        }
        s = s ^ f;
        i = i + 1;
    }
    s
}

/// The sink of the repetition-averaged Fibonacci driver: `reps` kernel runs,
/// each adding the upper running value — the (n+1)-th wrapping Fibonacci
/// number — into the sink with wraparound, so the sink is that value times
/// the repetition count modulo 2^64.
pub fn fib_sum_sink(n: u64, reps: u64) -> (s: u64)
    ensures
        s == vstd::wrapping::u64_specs::wrapping_mul(reps, fib_wrapped((n + 1) as nat)),
{
    let mut s: u64 = 0;
    let mut r: u64 = 0;
    while r < reps
        invariant
            r <= reps,
            s == vstd::wrapping::u64_specs::wrapping_mul(r, fib_wrapped((n + 1) as nat)),
        decreases reps - r,
    {
        let mut a: u64 = 0;
        let mut b: u64 = 1;
        let mut i: u64 = 0;
        while i < n
            invariant
                i <= n,
                a == fib_wrapped(i as nat),
                b == fib_wrapped((i + 1) as nat),
            decreases n - i,
        {
            let t = a.wrapping_add(b);
            a = b;
            b = t;
            i = i + 1;
        }
        proof {
            let m = u64_modulus() as int;
            let f = fib_wrapped((n + 1) as nat) as int;
            lemma_wrapping_add_is_mod(s, b);
            vstd::arithmetic::div_mod::lemma_add_mod_noop(r as int * f, f, m);
            vstd::arithmetic::mul::lemma_mul_is_distributive_add_other_way(f, r as int, 1);
        }
        s = s.wrapping_add(b);
        r = r + 1;
    }
    s
}

} // verus!
