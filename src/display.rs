//! Decimal text of amounts, as the edit form shows them.
use vstd::prelude::*;

verus! {

pub open spec fn digit_char(d: nat) -> char {
    ((d % 10) + 48) as char
}

/// The decimal digits of `n`, most significant first, without leading zeros.
pub open spec fn decimal_text(n: nat) -> Seq<char>
    decreases n,
{
    if n < 10 {
        seq![digit_char(n)]
    } else {
        decimal_text(n / 10).push(digit_char(n % 10))
    }
}

/// An amount of cents as units, a point and two digits: 1250 is "12.50".
pub open spec fn cents_text(c: nat) -> Seq<char> {
    decimal_text(c / 100) + seq!['.', digit_char((c % 100) / 10), digit_char(c % 10)]
}

/// An amount of cents with a leading '-' when negative: -5 is "-0.05".
pub open spec fn signed_cents_text(c: int) -> Seq<char> {
    if c < 0 {
        seq!['-'] + cents_text((-c) as nat)
    } else {
        cents_text(c as nat)
    }
}

fn digit(d: u64) -> (r: char)
    requires
        d < 10,
    ensures
        r == digit_char(d as nat),
{
    if d == 0 { '0' }
    else if d == 1 { '1' }
    else if d == 2 { '2' }
    else if d == 3 { '3' }
    else if d == 4 { '4' }
    else if d == 5 { '5' }
    else if d == 6 { '6' }
    else if d == 7 { '7' }
    else if d == 8 { '8' }
    else { '9' }
}

pub fn decimal_chars(n: u64) -> (r: Vec<char>)
    ensures
        r@ == decimal_text(n as nat),
    decreases n,
{
    if n < 10 {
        vec![digit(n)]
    } else {
        let mut v = decimal_chars(n / 10);
        v.push(digit(n % 10));
        v
    }
}

pub fn cents_chars(c: u64) -> (r: Vec<char>)
    ensures
        r@ == cents_text(c as nat),
{
    let mut v = decimal_chars(c / 100);
    v.push('.');
    v.push(digit((c % 100) / 10));
    v.push(digit(c % 10));
    v
}

/// An amount of cents as text, such as "12.50" or "-0.05".
pub fn amount_string(c: i64) -> (r: String)
    ensures
        r@ == signed_cents_text(c as int),
{
    if c < 0 {
        let m: u64 = if c == i64::MIN { 9223372036854775808 } else { (-c) as u64 };
        let mut v: Vec<char> = vec!['-'];
        let mut tail = cents_chars(m);
        v.append(&mut tail);
        string_of(&v)
    } else {
        string_of(&cents_chars(c as u64))
    }
}

/// Relies on `Iterator::collect` into a `String`: the characters in order.
#[verifier::external_body]
pub(crate) fn string_of(chars: &Vec<char>) -> (r: String)
    ensures
        r@ == chars@,
{
    chars.iter().collect()
}

} // verus!
