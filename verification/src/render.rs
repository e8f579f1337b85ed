//! Rendering of the single result line each benchmark emits.
//!
//! The line has the fixed shape `TASK=<name>,N=<size>,TIME_NS=<t>`, followed
//! by one `,<KEY>=<value>` pair per reported field. The integer fields are
//! rendered here with an exact contract against the decimal numeral spec;
//! fields whose values the library cannot compute (floating-point sums) are
//! appended by the drivers after the verified prefix is built.

use vstd::prelude::*;
use vstd::string::StringExecFns;

verus! {

/// The decimal digit character for `d`, a value below ten.
pub open spec fn dec_digit_char(d: nat) -> char {
    if d == 0 {
        '0'
    } else if d == 1 {
        '1'
    } else if d == 2 {
        '2'
    } else if d == 3 {
        '3'
    } else if d == 4 {
        '4'
    } else if d == 5 {
        '5'
    } else if d == 6 {
        '6'
    } else if d == 7 {
        '7'
    } else if d == 8 {
        '8'
    } else {
        '9'
    }
}

/// The decimal numeral of `n`, most significant digit first, with no sign
/// and no leading zero except for zero itself.
pub open spec fn dec_chars(n: nat) -> Seq<char>
    decreases n,
{
    if n < 10 {
        seq![dec_digit_char(n)]
    } else {
        dec_chars(n / 10).push(dec_digit_char(n % 10))
    }
}

/// The one-character string for a single decimal digit.
fn digit_str(d: u64) -> (s: &'static str)
    requires
        d < 10,
    ensures
        s@ == seq![dec_digit_char(d as nat)],
{
    proof {
        reveal_strlit("0");
        reveal_strlit("1");
        reveal_strlit("2");
        reveal_strlit("3");
        reveal_strlit("4");
        reveal_strlit("5");
        reveal_strlit("6");
        reveal_strlit("7");
        reveal_strlit("8");
        reveal_strlit("9");
    }
    let s = if d == 0 {
        "0"
    } else if d == 1 {
        "1"
    } else if d == 2 {
        "2"
    } else if d == 3 {
        "3"
    } else if d == 4 {
        "4"
    } else if d == 5 {
        "5"
    } else if d == 6 {
        "6"
    } else if d == 7 {
        "7"
    } else if d == 8 {
        "8"
    } else {
        "9"
    };
    proof {
        assert(s@ =~= seq![dec_digit_char(d as nat)]);
    }
    s
}

/// Renders `v` as its decimal numeral.
pub fn u64_string(v: u64) -> (s: String)
    ensures
        s@ == dec_chars(v as nat),
    decreases v,
{
    if v < 10 {
        let mut s = String::new();
        s.append(digit_str(v));
        proof {
            assert(s@ =~= dec_chars(v as nat));
        }
        s
    } else {
        let mut s = u64_string(v / 10);
        s.append(digit_str(v % 10));
        proof {
            assert(s@ =~= dec_chars(v as nat));
        }
        s
    }
}

/// The fixed prefix of a benchmark's result line: task name, input size and
/// elapsed nanoseconds in `key=value` form.
pub open spec fn spec_result_line(task: Seq<char>, n: nat, time_ns: nat) -> Seq<char> {
    "TASK="@ + task + ",N="@ + dec_chars(n) + ",TIME_NS="@ + dec_chars(time_ns)
}

/// Builds the result line prefix `TASK=<task>,N=<n>,TIME_NS=<time_ns>`.
pub fn result_line(task: &str, n: u64, time_ns: u64) -> (line: String)
    ensures
        line@ == spec_result_line(task@, n as nat, time_ns as nat),
{
    let mut line = String::new();
    line.append("TASK=");
    line.append(task);
    line.append(",N=");
    let ns = u64_string(n);
    line.append(ns.as_str());
    line.append(",TIME_NS=");
    let ts = u64_string(time_ns);
    line.append(ts.as_str());
    proof {
        assert(line@ =~= spec_result_line(task@, n as nat, time_ns as nat));
    }
    line
}

/// Appends one integer field as `,<key>=<value>` to a result line.
pub fn append_field_u64(line: &mut String, key: &str, value: u64)
    ensures
        final(line)@ == old(line)@ + ","@ + key@ + "="@ + dec_chars(value as nat),
{
    line.append(",");
    line.append(key);
    line.append("=");
    let vs = u64_string(value);
    line.append(vs.as_str());
    proof {
        assert(line@ =~= old(line)@ + ","@ + key@ + "="@ + dec_chars(value as nat));
    }
}

} // verus!
