//! Size-parameter parsing with silent fallback.
//!
//! Every benchmark reads its size parameters as decimal strings and never
//! fails on bad input: anything that is not a well-formed number in range
//! silently becomes the documented default. The parser below accepts exactly
//! what Rust's standard unsigned decimal parse accepts — an optional leading
//! plus sign, then one or more ASCII digits, with a value that fits in 64
//! bits — and the contract says precisely when it succeeds.

use vstd::prelude::*;

verus! {

/// Whether `c` is an ASCII decimal digit.
pub open spec fn is_dec_digit(c: u8) -> bool {
    48 <= c <= 57
}

/// Whether every byte of `s` is an ASCII decimal digit.
pub open spec fn all_dec_digits(s: Seq<u8>) -> bool {
    forall|i: int| 0 <= i < s.len() ==> is_dec_digit(#[trigger] s[i])
}

/// The number a sequence of decimal digits denotes, most significant first.
pub open spec fn dec_value(s: Seq<u8>) -> nat
    decreases s.len(),
{
    if s.len() == 0 {
        0
    } else {
        dec_value(s.drop_last()) * 10 + ((s.last() - 48) as nat)
    }
}

/// The digits of `s` after an optional single leading plus sign.
pub open spec fn spec_strip_plus(s: Seq<u8>) -> Seq<u8> {
    if s.len() > 0 && s[0] == 43 {
        s.subrange(1, s.len() as int)
    } else {
        s
    }
}

/// Whether `s` is a well-formed decimal numeral whose value fits in a `u64`:
/// an optional leading plus sign, then at least one digit, denoting a value
/// of at most `u64::MAX`.
pub open spec fn is_u64_numeral(s: Seq<u8>) -> bool {
    &&& spec_strip_plus(s).len() > 0
    &&& all_dec_digits(spec_strip_plus(s))
    &&& dec_value(spec_strip_plus(s)) <= u64::MAX
}

/// A longer run of digits never denotes a smaller number: appending digits
/// multiplies the value by ten before adding the new digit.
proof fn lemma_dec_value_prefix_le(s: Seq<u8>, i: int)
    requires
        0 <= i <= s.len(),
    ensures
        dec_value(s.subrange(0, i)) <= dec_value(s),
    decreases s.len() - i,
{
    if i == s.len() {
        assert(s.subrange(0, i) =~= s);
    } else {
        lemma_dec_value_prefix_le(s, i + 1);
        let t = s.subrange(0, i + 1);
        assert(t.drop_last() =~= s.subrange(0, i));
        assert(dec_value(t) == dec_value(s.subrange(0, i)) * 10 + ((t.last() - 48) as nat));
    }
}

/// Parses `s` as a decimal `u64`: returns the denoted value exactly when
/// `s` is a well-formed numeral that fits, and nothing otherwise.
pub fn parse_u64(s: &[u8]) -> (r: Option<u64>)
    ensures
        r == if is_u64_numeral(s@) {
            Some(dec_value(spec_strip_plus(s@)) as u64)
        } else {
            None::<u64>
        },
{
    let n = s.len();
    let start: usize = if n > 0 && s[0] == 43 {
        1
    } else {
        0
    };
    let ghost digits = spec_strip_plus(s@);
    proof {
        assert(digits =~= s@.subrange(start as int, n as int));
    }
    if n == start {
        return None;
    }
    let mut acc: u64 = 0;
    let mut i: usize = start;
    while i < n
        invariant
            start <= i <= n,
            n == s@.len(),
            digits == spec_strip_plus(s@),
            digits == s@.subrange(start as int, n as int),
            all_dec_digits(digits.subrange(0, i - start)),
            acc == dec_value(digits.subrange(0, i - start)),
        decreases n - i,
    {
        let c = s[i];
        proof {
            assert(digits[i - start] == s@[i as int]);
        }
        if c < 48 || c > 57 {
            proof {
                assert(!is_dec_digit(digits[i - start]));
            }
            return None;
        }
        let d = (c - 48) as u64;
        let shifted = match acc.checked_mul(10) {
            Some(v) => v,
            None => {
                proof {
                    lemma_parse_overflow(digits, i - start);
                }
                return None;
            },
        };
        let next = match shifted.checked_add(d) {
            Some(v) => v,
            None => {
                proof {
                    lemma_parse_overflow(digits, i - start);
                }
                return None;
            },
        };
        proof {
            assert(digits.subrange(0, i - start + 1).drop_last() =~= digits.subrange(
                0,
                i - start,
            ));
            assert(digits.subrange(0, i - start + 1).last() == s@[i as int]);
        }
        acc = next;
        i = i + 1;
    }
    proof {
        assert(digits.subrange(0, n - start) =~= digits);
    }
    Some(acc)
}

/// If the numeral up to position `i` already overflows after taking one more
/// digit, the whole run of digits denotes a value beyond `u64::MAX`.
proof fn lemma_parse_overflow(digits: Seq<u8>, i: int)
    requires
        0 <= i < digits.len(),
        is_dec_digit(digits[i]),
        all_dec_digits(digits.subrange(0, i)),
        dec_value(digits.subrange(0, i)) * 10 + (digits[i] - 48) > u64::MAX,
    ensures
        !(all_dec_digits(digits) && dec_value(digits) <= u64::MAX),
{
    if all_dec_digits(digits) {
        lemma_dec_value_prefix_le(digits, i + 1);
        assert(digits.subrange(0, i + 1).drop_last() =~= digits.subrange(0, i));
        assert(digits.subrange(0, i + 1).last() == digits[i]);
        assert(dec_value(digits.subrange(0, i + 1)) == dec_value(digits.subrange(0, i)) * 10 + (
        digits[i] - 48));
    }
}

/// Parses a decimal size parameter, substituting the documented default on
/// any malformed or out-of-range input — bad arguments are never an error.
pub fn parse_u64_or(s: &[u8], default: u64) -> (r: u64)
    ensures
        r == if is_u64_numeral(s@) {
            dec_value(spec_strip_plus(s@)) as u64
        } else {
            default
        },
{
    match parse_u64(s) {
        Some(v) => v,
        None => default,
    }
}

} // verus!
