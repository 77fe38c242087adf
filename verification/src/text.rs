//! Decimal rendering of the integers that appear in diagnostics: source
//! line numbers and integer-literal spellings.

use vstd::prelude::*;

verus! {

/// The character for one decimal digit.
pub open spec fn spec_digit(d: nat) -> char {
    if d == 0 {
        '0'
    } else if d == 1 {
        '1'
    } else if d == 2 {
        '2'
    } else if d == 3 {
        '3'
    } else if d == 4 {
        '4'
    } else if d == 5 {
        '5'
    } else if d == 6 {
        '6'
    } else if d == 7 {
        '7'
    } else if d == 8 {
        '8'
    } else {
        '9'
    }
}

/// The decimal digits of `n`, most significant first.
pub open spec fn spec_decimal(n: nat) -> Seq<char>
    decreases n,
{
    if n < 10 {
        seq![spec_digit(n)]
    } else {
        spec_decimal(n / 10).push(spec_digit(n % 10))
    }
}

/// The spelling of a signed integer: a minus sign before the digits of its
/// magnitude when it is negative.
pub open spec fn spec_signed_decimal(i: int) -> Seq<char> {
    if i >= 0 {
        spec_decimal(i as nat)
    } else {
        seq!['-'] + spec_decimal((-i) as nat)
    }
}

fn digit_string(d: u32) -> (r: String)
    requires
        d < 10,
    ensures
        r@ == seq![spec_digit(d as nat)],
{
    let r: String = match d {
        0 => String::from_str("0"),
        1 => String::from_str("1"),
        2 => String::from_str("2"),
        3 => String::from_str("3"),
        4 => String::from_str("4"),
        5 => String::from_str("5"),
        6 => String::from_str("6"),
        7 => String::from_str("7"),
        8 => String::from_str("8"),
        _ => String::from_str("9"),
    };
    proof {
        reveal_strlit("0");
        reveal_strlit("1");
        reveal_strlit("2");
        reveal_strlit("3");
        reveal_strlit("4");
        reveal_strlit("5");
        reveal_strlit("6");
        reveal_strlit("7");
        reveal_strlit("8");
        reveal_strlit("9");
        assert(r@ =~= seq![spec_digit(d as nat)]);
    }
    r
}

/// Renders `n` in decimal.
pub fn decimal_string(n: u32) -> (r: String)
    ensures
        r@ == spec_decimal(n as nat),
    decreases n,
{
    if n < 10 {
        digit_string(n)
    } else {
        let high = decimal_string(n / 10);
        let low = digit_string(n % 10);
        let r = high.concat(low.as_str());
        proof {
            assert(r@ =~= spec_decimal(n as nat));
        }
        r
    }
}

/// Renders a signed integer in decimal.
pub fn signed_decimal_string(i: i32) -> (r: String)
    ensures
        r@ == spec_signed_decimal(i as int),
{
    if i >= 0 {
        decimal_string(i as u32)
    } else {
        let magnitude: u32 = (-(i as i64)) as u32;
        let r = String::from_str("-").concat(decimal_string(magnitude).as_str());
        proof {
            reveal_strlit("-");
            assert(r@ =~= spec_signed_decimal(i as int));
        }
        r
    }
}

} // verus!
