//! The sort benchmark kernel: sort pseudo-random 64-bit values and fold a
//! strided XOR checksum over the result.
//!
//! The checksum reads every `max(n/16, 1)`-th element of the sorted array, so
//! it depends on the order the sort produces. Because a sorted rearrangement
//! of fixed values is unique, the checksum is fully reproducible from the
//! seed alone; `lemma_sorted_rearrangement_unique` states that.

use vstd::prelude::*;
use vstd::relations::sorted_by;
use vstd::relations::total_ordering;
use vstd::seq_lib::lemma_sorted_unique;
use vstd::seq_lib::group_to_multiset_ensures;
use vstd::multiset::group_multiset_axioms;
use crate::rng::draw_at;
use crate::rng::random_values;

verus! {

/// Non-decreasing order on 64-bit values, the order the sort kernel uses.
pub open spec fn u64_leq() -> spec_fn(u64, u64) -> bool {
    |a: u64, b: u64| a <= b
}

/// A sequence is sorted when no later element is smaller than an earlier one.
pub open spec fn sorted(s: Seq<u64>) -> bool {
    forall|i: int, j: int| 0 <= i <= j < s.len() ==> s[i] <= s[j]
}

/// `sorted` coincides with vstd's `sorted_by` under the non-decreasing order.
pub proof fn lemma_sorted_is_sorted_by_leq(s: Seq<u64>)
    ensures
        sorted(s) <==> sorted_by(s, u64_leq()),
{
    if sorted_by(s, u64_leq()) {
        assert forall|i: int, j: int| 0 <= i <= j < s.len() implies s[i] <= s[j] by {
            if i < j {
                assert(u64_leq()(s[i], s[j]));
            }
        }
    }
}

/// Two sorted sequences made of the same values with the same repetitions
/// are equal: a sorted rearrangement is unique, which makes every value the
/// checksum reads from it reproducible.
pub proof fn lemma_sorted_rearrangement_unique(a: Seq<u64>, b: Seq<u64>)
    requires
        sorted(a),
        sorted(b),
        a.to_multiset() == b.to_multiset(),
    ensures
        a == b,
{
    assert(total_ordering(u64_leq()));
    lemma_sorted_is_sorted_by_leq(a);
    lemma_sorted_is_sorted_by_leq(b);
    lemma_sorted_unique(a, b, u64_leq());
    assert(a =~= b);
}

/// Swapping two distinct positions of a sequence keeps its multiset of
/// values.
proof fn lemma_swap_keeps_multiset(s: Seq<u64>, i: int, j: int)
    requires
        0 <= i < j < s.len(),
    ensures
        s.update(i, s[j]).update(j, s[i]).to_multiset() == s.to_multiset(),
{
    broadcast use group_to_multiset_ensures;
    broadcast use group_multiset_axioms;

    let lo = s[i];
    let hi = s[j];
    let mid = s.update(i, hi);
    assert(mid.to_multiset() == s.to_multiset().insert(hi).remove(lo));
    assert(mid[j] == hi);
    assert(mid.update(j, lo).to_multiset() == mid.to_multiset().insert(lo).remove(hi));
    assert(s.contains(lo)) by {
        assert(s[i] == lo);
    }
    assert(s.to_multiset().count(lo) > 0);
    assert(mid.update(j, lo).to_multiset() =~= s.to_multiset());
}

/// Sorts the vector in place into non-decreasing order by insertion,
/// keeping exactly the values it started with.
pub fn sort_u64(v: &mut Vec<u64>)
    ensures
        sorted(final(v)@),
        final(v)@.to_multiset() == old(v)@.to_multiset(),
        final(v)@.len() == old(v)@.len(),
{
    let n = v.len();
    if n <= 1 {
        return;
    }
    let mut i: usize = 1;
    while i < n
        invariant
            1 <= i <= n,
            n == v@.len(),
            forall|a: int, b: int| 0 <= a <= b < i ==> v@[a] <= v@[b],
            v@.to_multiset() == old(v)@.to_multiset(),
        decreases n - i,
    {
        let mut j: usize = i;
        while j > 0 && v[j - 1] > v[j]
            invariant
                j <= i < n,
                n == v@.len(),
                forall|a: int, b: int| 0 <= a <= b <= i && b != j ==> v@[a] <= v@[b],
                v@.to_multiset() == old(v)@.to_multiset(),
            decreases j,
        {
            let ghost before = v@;
            let lo = v[j - 1];
            let hi = v[j];
            v[j - 1] = hi;
            v[j] = lo;
            proof {
                assert(v@ == before.update(j - 1, hi).update(j as int, lo));
                lemma_swap_keeps_multiset(before, j - 1, j as int);
            }
            j = j - 1;
        }
        proof {
            assert forall|a: int, b: int| 0 <= a <= b <= i implies v@[a] <= v@[b] by {
                if b == j && a < b {
                    assert(v@[j as int - 1] <= v@[j as int]);
                    if a < j - 1 {
                        assert(v@[a] <= v@[j as int - 1]);
                    }
                }
            }
        }
        i = i + 1;
    }
}

/// The stride the checksum samples with: a sixteenth of the array length,
/// but at least one.
pub open spec fn spec_checksum_stride(n: nat) -> nat {
    if n / 16 == 0 {
        1
    } else {
        n / 16
    }
}

/// Computes the checksum stride for an array of `n` elements.
pub fn checksum_stride(n: usize) -> (s: usize)
    ensures
        s == spec_checksum_stride(n as nat),
{
    let s = n / 16;
    if s == 0 {
        1
    } else {
        s
    }
}

/// How many elements a stride of `step` samples from an array of `n`
/// elements: indices 0, step, 2·step, … below `n`.
pub open spec fn sample_count(n: nat, step: nat) -> nat {
    if n == 0 || step == 0 {
        0
    } else {
        1 + (n - 1) as nat / step
    }
}

/// XOR of the first `k` sampled elements, reading index `j·step` for each
/// `j` below `k`.
pub open spec fn xor_samples(s: Seq<u64>, step: nat, k: nat) -> u64
    decreases k,
{
    if k == 0 {
        0
    } else {
        xor_samples(s, step, (k - 1) as nat) ^ s[(k - 1) as int * step as int]
    }
}

/// The strided XOR checksum of a whole sequence: XOR of every `step`-th
/// element starting at index 0.
pub open spec fn strided_xor(s: Seq<u64>, step: nat) -> u64 {
    xor_samples(s, step, sample_count(s.len(), step))
}

/// Folds the strided XOR checksum over `v`, reading every `step`-th element
/// starting at the first.
pub fn xor_checksum(v: &Vec<u64>, step: usize) -> (acc: u64)
    requires
        step >= 1,
    ensures
        acc == strided_xor(v@, step as nat),
{
    let n = v.len();
    if n == 0 {
        return 0;
    }
    let count = 1 + (n - 1) / step;
    let mut acc: u64 = 0;
    let mut k: usize = 0;
    while k < count
        invariant
            step >= 1,
            n == v@.len(),
            1 <= count,
            count == sample_count(n as nat, step as nat),
            k <= count,
            acc == xor_samples(v@, step as nat, k as nat),
        decreases count - k,
    {
        proof {
            let q = (n - 1) / (step as int);
            assert(count - 1 == q);
            vstd::arithmetic::mul::lemma_mul_inequality(k as int, q, step as int);
            vstd::arithmetic::div_mod::lemma_fundamental_div_mod(n - 1, step as int);
            vstd::arithmetic::div_mod::lemma_mod_bound(n - 1, step as int);
            assert(q * (step as int) <= n - 1);
            assert(k as int * (step as int) <= n - 1);
        }
        let idx = k * step;
        acc = acc ^ v[idx];
        k = k + 1;
    }
    acc
}

/// The first `n` values the generator draws from `seed`, in draw order.
pub open spec fn draw_seq(seed: u64, n: nat) -> Seq<u64> {
    Seq::new(n, |i: int| draw_at(seed, i as nat))
}

/// The result of one sort trial: the strided XOR checksum of the sorted
/// rearrangement of the first `n` draws from `seed`.
pub open spec fn spec_sort_trial(seed: u64, n: nat) -> u64 {
    strided_xor(draw_seq(seed, n).sort_by(u64_leq()), spec_checksum_stride(n))
}

/// One full trial of the sort benchmark: fill an array with `n` draws from
/// `seed`, sort it, and return the strided XOR checksum of the result.
pub fn sort_trial(seed: u64, n: usize) -> (acc: u64)
    ensures
        acc == spec_sort_trial(seed, n as nat),
{
    let mut v = random_values(seed, n);
    proof {
        assert(v@ =~= draw_seq(seed, n as nat));
    }
    sort_u64(&mut v);
    proof {
        let d = draw_seq(seed, n as nat);
        d.lemma_sort_by_ensures(u64_leq());
        lemma_sorted_is_sorted_by_leq(d.sort_by(u64_leq()));
        lemma_sorted_rearrangement_unique(v@, d.sort_by(u64_leq()));
    }
    let step = checksum_stride(n);
    xor_checksum(&v, step)
}

/// The batched sort benchmark: XOR of `iters` trials. Every trial starts
/// from the same seed and so returns the same checksum, which makes the
/// fold collapse to that checksum for an odd count and to zero for an even
/// one.
pub fn sort_batch(seed: u64, n: usize, iters: u64) -> (acc: u64)
    ensures
        acc == if iters % 2 == 1 {
            spec_sort_trial(seed, n as nat)
        } else {
            0u64
        },
{
    let mut acc: u64 = 0;
    let mut i: u64 = 0;
    while i < iters
        invariant
            i <= iters,
            acc == if i % 2 == 1 {
                spec_sort_trial(seed, n as nat)
            } else {
                0u64
            },
        decreases iters - i,
    {
        let t = sort_trial(seed, n);
        proof {
            assert(t ^ t == 0) by (bit_vector);
            assert(0u64 ^ t == t) by (bit_vector);
        }
        acc = acc ^ t;
        i = i + 1;
    }
    acc
}

} // verus!
