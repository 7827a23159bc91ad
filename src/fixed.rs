//! Decimal text of fixed-point numbers and rounded division.

use vstd::prelude::*;
use vstd::string::*;

verus! {

/// The character of a decimal digit.
pub open spec fn digit_char(d: nat) -> char {
    if d == 0 {
        '0'
    } else if d == 1 {
        '1'
    } else if d == 2 {
        '2'
    } else if d == 3 {
        '3'
    } else if d == 4 {
        '4'
    } else if d == 5 {
        '5'
    } else if d == 6 {
        '6'
    } else if d == 7 {
        '7'
    } else if d == 8 {
        '8'
    } else {
        '9'
    }
}

/// Decimal digits of `n`, most significant first, with no leading zero.
pub open spec fn decimal(n: nat) -> Seq<char>
    decreases n,
{
    if n < 10 {
        seq![digit_char(n)]
    } else {
        decimal(n / 10).push(digit_char(n % 10))
    }
}

/// The last `places` decimal digits of `n`, padded with zeros.
pub open spec fn padded(n: nat, places: nat) -> Seq<char>
    decreases places,
{
    if places == 0 {
        Seq::empty()
    } else {
        padded(n / 10, (places - 1) as nat).push(digit_char(n % 10))
    }
}

pub open spec fn pow10(p: nat) -> nat
    decreases p,
{
    if p == 0 {
        1
    } else {
        10 * pow10((p - 1) as nat)
    }
}

/// The number `n / 10^places` written with exactly `places` decimals.
pub open spec fn fixed(n: nat, places: nat) -> Seq<char> {
    if places == 0 {
        decimal(n)
    } else {
        decimal(n / pow10(places)) + seq!['.'] + padded(n % pow10(places), places)
    }
}

/// `a / b` rounded to the nearest integer, halves rounded up.
pub open spec fn round_div(a: nat, b: nat) -> nat
    recommends
        b > 0,
{
    (2 * a + b) / (2 * b)
}

/// Largest operand accepted by the exact rounded division.
pub const ROUND_LIMIT: u128 = 0x1_0000_0000_0000_0000_0000_0000;

/// Rounded division on wide integers.
pub fn div_round(a: u128, b: u128) -> (r: u128)
    requires
        0 < b < ROUND_LIMIT,
        a < ROUND_LIMIT,
    ensures
        r == round_div(a as nat, b as nat),
{
    (2 * a + b) / (2 * b)
}

fn digit_str(d: u64) -> (r: &'static str)
    requires
        d < 10,
    ensures
        r@ == seq![digit_char(d as nat)],
{
    if d == 0 {
        proof { reveal_strlit("0"); }
        "0"
    } else if d == 1 {
        proof { reveal_strlit("1"); }
        "1"
    } else if d == 2 {
        proof { reveal_strlit("2"); }
        "2"
    } else if d == 3 {
        proof { reveal_strlit("3"); }
        "3"
    } else if d == 4 {
        proof { reveal_strlit("4"); }
        "4"
    } else if d == 5 {
        proof { reveal_strlit("5"); }
        "5"
    } else if d == 6 {
        proof { reveal_strlit("6"); }
        "6"
    } else if d == 7 {
        proof { reveal_strlit("7"); }
        "7"
    } else if d == 8 {
        proof { reveal_strlit("8"); }
        "8"
    } else {
        proof { reveal_strlit("9"); }
        "9"
    }
}

/// Appends the decimal digits of `n`.
pub fn push_decimal(s: &mut String, n: u64)
    ensures
        final(s)@ == old(s)@ + decimal(n as nat),
    decreases n,
{
    if n >= 10 {
        push_decimal(s, n / 10);
    }
    s.append(digit_str(n % 10));
    assert(s@ =~= old(s)@ + decimal(n as nat));
}

fn push_padded(s: &mut String, n: u64, places: u64)
    ensures
        final(s)@ == old(s)@ + padded(n as nat, places as nat),
    decreases places,
{
    if places > 0 {
        push_padded(s, n / 10, places - 1);
        s.append(digit_str(n % 10));
        assert(s@ =~= old(s)@ + padded(n as nat, places as nat));
    } else {
        assert(s@ =~= old(s)@ + padded(n as nat, places as nat));
    }
}

/// Appends `n / 10^places` written with `places` decimals.
pub fn push_fixed(s: &mut String, n: u64, places: u64)
    requires
        places <= 2,
    ensures
        final(s)@ == old(s)@ + fixed(n as nat, places as nat),
{
    if places == 0 {
        push_decimal(s, n);
    } else {
        let p: u64 = if places == 1 { 10 } else { 100 };
        assert(p == pow10(places as nat)) by {
            reveal_with_fuel(pow10, 3);
        }
        push_decimal(s, n / p);
        proof { reveal_strlit("."); }
        s.append(".");
        push_padded(s, n % p, places);
        assert(s@ =~= old(s)@ + fixed(n as nat, places as nat));
    }
}

} // verus!
