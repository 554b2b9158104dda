//! Decimal rendering of the integers that appear inside counter keys.
//!
//! Rule-config keys embed the rule's `requests_per_unit` and the wire integer
//! of its time unit; both are written in ordinary base-10 notation.

use vstd::prelude::*;
use vstd::string::StringExecFns;

verus! {

/// The character for a single decimal digit value.
pub open spec fn spec_digit_char(d: int) -> char {
    if d == 0 {
        '0'
    } else if d == 1 {
        '1'
    } else if d == 2 {
        '2'
    } else if d == 3 {
        '3'
    } else if d == 4 {
        '4'
    } else if d == 5 {
        '5'
    } else if d == 6 {
        '6'
    } else if d == 7 {
        '7'
    } else if d == 8 {
        '8'
    } else {
        '9'
    }
}

/// Base-10 notation of a non-negative integer, most significant digit first,
/// with no leading zeros (except for the number 0 itself).
pub open spec fn spec_dec_chars(n: int) -> Seq<char>
    decreases n,
{
    if n < 10 {
        seq![spec_digit_char(n)]
    } else {
        spec_dec_chars(n / 10) + seq![spec_digit_char(n % 10)]
    }
}

/// Base-10 notation of a signed integer: a leading '-' for negative values.
pub open spec fn spec_signed_dec_chars(n: int) -> Seq<char> {
    if n < 0 {
        seq!['-'] + spec_dec_chars(-n)
    } else {
        spec_dec_chars(n)
    }
}

fn digit_to_str(d: u64) -> (r: &'static str)
    requires
        d < 10,
    ensures
        r@ == seq![spec_digit_char(d as int)],
{
    proof {
        reveal_strlit("0");
        reveal_strlit("1");
        reveal_strlit("2");
        reveal_strlit("3");
        reveal_strlit("4");
        reveal_strlit("5");
        reveal_strlit("6");
        reveal_strlit("7");
        reveal_strlit("8");
        reveal_strlit("9");
    }
    let r: &'static str = match d {
        0 => "0",
        1 => "1",
        2 => "2",
        3 => "3",
        4 => "4",
        5 => "5",
        6 => "6",
        7 => "7",
        8 => "8",
        _ => "9",
    };
    proof {
        assert(r@ =~= seq![spec_digit_char(d as int)]);
    }
    r
}

/// Renders an unsigned 64-bit integer in base 10.
pub fn u64_to_dec_string(n: u64) -> (r: String)
    ensures
        r@ == spec_dec_chars(n as int),
    decreases n,
{
    if n < 10 {
        let r = digit_to_str(n).to_owned();
        r
    } else {
        let mut r = u64_to_dec_string(n / 10);
        r.append(digit_to_str(n % 10));
        proof {
            assert(r@ =~= spec_dec_chars(n as int));
        }
        r
    }
}

/// Renders a signed 64-bit integer in base 10, with a '-' sign when negative.
pub fn i64_to_dec_string(n: i64) -> (r: String)
    ensures
        r@ == spec_signed_dec_chars(n as int),
{
    proof {
        reveal_strlit("-");
    }
    if n >= 0 {
        u64_to_dec_string(n as u64)
    } else {
        let magnitude: u64 = (-(n as i128)) as u64;
        assert(magnitude == -(n as int));
        let mut r = String::from_str("-");
        assert(r@ =~= seq!['-']);
        let digits = u64_to_dec_string(magnitude);
        r.append(digits.as_str());
        r
    }
}

} // verus!
