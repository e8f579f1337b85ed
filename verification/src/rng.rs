//! The deterministic pseudo-random generator shared by the benchmarks.
//!
//! Reproducibility across reimplementations is the whole point of the suite,
//! so the generator is pinned bit-for-bit: the state is one 64-bit word, a
//! draw scrambles it with three shift-xor steps (`>>12`, `<<25`, `>>27`) and
//! returns the new state times the fixed odd constant, wrapping. The spec
//! functions below define the k-th draw from a seed as a pure function, and
//! every method's contract is stated against them.

use vstd::prelude::*;

verus! {

/// Fallback seed used when a caller seeds the generator with zero, which
/// would otherwise lock the xorshift state at zero forever.
pub open spec fn spec_default_seed() -> u64 {
    0x123456789ABCDEF0
}

/// The xorshift scramble: three shift-xor steps on the 64-bit state.
pub open spec fn scramble(x: u64) -> u64 {
    let a = x ^ (x >> 12);
    let b = a ^ (a << 25);
    b ^ (b >> 27)
}

/// The output mix: the scrambled state times a fixed odd constant, wrapping
/// modulo 2^64.
pub open spec fn mix(x: u64) -> u64 {
    vstd::wrapping::u64_specs::wrapping_mul(x, 0x2545F4914F6CDD1D)
}

/// The generator state after `k` draws from `seed`.
pub open spec fn state_after(seed: u64, k: nat) -> u64
    decreases k,
{
    if k == 0 {
        seed
    } else {
        scramble(state_after(seed, (k - 1) as nat))
    }
}

/// The `k`-th value drawn from `seed`, counting from zero.
pub open spec fn draw_at(seed: u64, k: nat) -> u64 {
    mix(state_after(seed, k + 1))
}

/// Reaching a state in two stages of `i` and then `j` draws is the same as
/// reaching it in one stage of `i + j` draws.
pub proof fn lemma_state_compose(seed: u64, i: nat, j: nat)
    ensures
        state_after(state_after(seed, i), j) == state_after(seed, i + j),
    decreases j,
{
    if j > 0 {
        lemma_state_compose(seed, i, (j - 1) as nat);
    }
}

/// The generator sequence is restartable: drawing `i` values and continuing
/// is the same as starting fresh from the intermediate state, so the whole
/// unbounded sequence is a pure function of the seed alone.
pub proof fn lemma_stream_restartable(seed: u64, i: nat, j: nat)
    ensures
        state_after(state_after(seed, i), j) == state_after(seed, i + j),
        draw_at(state_after(seed, i), j) == draw_at(seed, i + j),
{
    lemma_state_compose(seed, i, j);
    lemma_state_compose(seed, i, j + 1);
}

/// A xorshift-multiply pseudo-random generator holding one 64-bit word of
/// state.
pub struct Rng {
    /// Current 64-bit state; the next draw scrambles it in place.
    pub state: u64,
}

impl Rng {
    /// Starts a generator at exactly the given seed.
    pub fn new(seed: u64) -> (r: Rng)
        ensures
            r.state == seed,
    {
        Rng { state: seed }
    }

    /// Starts a generator at the given seed, replacing a zero seed with the
    /// fixed fallback so the state never sticks at zero.
    pub fn seed(seed: u64) -> (r: Rng)
        ensures
            r.state == if seed == 0 { spec_default_seed() } else { seed },
    {
        if seed == 0 {
            Rng { state: 0x123456789ABCDEF0 }
        } else {
            Rng { state: seed }
        }
    }

    /// Draws the next 64-bit value: scrambles the state and returns the
    /// mixed (multiplied) copy of the new state.
    pub fn next_u64(&mut self) -> (r: u64)
        ensures
            final(self).state == scramble(old(self).state),
            r == draw_at(old(self).state, 0),
    {
        let mut x = self.state;
        x = x ^ (x >> 12u64);
        x = x ^ (x << 25u64);
        x = x ^ (x >> 27u64);
        self.state = x;
        proof {
            assert(state_after(old(self).state, 1) == scramble(state_after(old(self).state, 0)));
        }
        x.wrapping_mul(0x2545F4914F6CDD1D)
    }

    /// Draws the next 64-bit value; same transform as `next_u64` under the
    /// spelling the Monte Carlo benchmarks use.
    pub fn u64(&mut self) -> (r: u64)
        ensures
            final(self).state == scramble(old(self).state),
            r == draw_at(old(self).state, 0),
    {
        self.next_u64()
    }

    /// Draws the next value and keeps its top 53 bits, the integer mantissa
    /// the drivers scale by 2^-53 to get a uniform double in [0, 1).
    pub fn next_u53(&mut self) -> (r: u64)
        ensures
            final(self).state == scramble(old(self).state),
            r == draw_at(old(self).state, 0) >> 11u64,
    {
        let x = self.next_u64();
        x >> 11u64
    }
}

/// Fills a vector with the first `n` draws from `seed`, the deterministic
/// array generation step the array benchmarks share.
pub fn random_values(seed: u64, n: usize) -> (v: Vec<u64>)
    ensures
        v@.len() == n,
        forall|i: int| 0 <= i < n ==> v@[i] == draw_at(seed, i as nat),
{
    let mut rng = Rng::new(seed);
    let mut v: Vec<u64> = Vec::new();
    while v.len() < n
        invariant
            v@.len() <= n,
            rng.state == state_after(seed, v@.len() as nat),
            forall|i: int| 0 <= i < v@.len() ==> v@[i] == draw_at(seed, i as nat),
        decreases n - v@.len(),
    {
        proof {
            lemma_stream_restartable(seed, v@.len() as nat, 0);
        }
        let x = rng.next_u64();
        v.push(x);
    }
    v
}

} // verus!
