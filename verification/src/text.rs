//! Decimal rendering of unsigned integers, with and without thousands
//! separators, as character sequences and verified string builders.

use vstd::prelude::*;
use num_format::Locale;
use num_format::ToFormattedString;

verus! {

/// The character for a single decimal digit value.
pub open spec fn digit_char(d: nat) -> char {
    if d == 0 {
        '0'
    } else if d == 1 {
        '1'
    } else if d == 2 {
        '2'
    } else if d == 3 {
        '3'
    } else if d == 4 {
        '4'
    } else if d == 5 {
        '5'
    } else if d == 6 {
        '6'
    } else if d == 7 {
        '7'
    } else if d == 8 {
        '8'
    } else {
        '9'
    }
}

/// Decimal rendering of `n`, most significant digit first, without leading
/// zeros (zero itself is rendered as a single `'0'`).
pub open spec fn dec_chars(n: nat) -> Seq<char>
    decreases n,
{
    if n < 10 {
        seq![digit_char(n)]
    } else {
        dec_chars(n / 10) + seq![digit_char(n % 10)]
    }
}

/// Decimal rendering of `n` left-padded with `'0'` to at least two digits.
pub open spec fn dec2_chars(n: nat) -> Seq<char> {
    if n < 10 {
        seq!['0'] + dec_chars(n)
    } else {
        dec_chars(n)
    }
}

/// Decimal rendering of `n` left-padded with `'0'` to at least three digits.
pub open spec fn dec3_chars(n: nat) -> Seq<char> {
    if n < 10 {
        seq!['0', '0'] + dec_chars(n)
    } else if n < 100 {
        seq!['0'] + dec_chars(n)
    } else {
        dec_chars(n)
    }
}

/// Decimal rendering of `n` with `','` between groups of three digits,
/// counted from the least significant digit.
pub open spec fn grouped_chars(n: nat) -> Seq<char>
    decreases n,
{
    if n < 1000 {
        dec_chars(n)
    } else {
        grouped_chars(n / 1000) + seq![','] + dec3_chars(n % 1000)
    }
}

/// Relies on `String::push` from std: it appends exactly the given character.
#[verifier::external_body]
pub(crate) fn push_char(s: &mut String, c: char)
    ensures
        final(s)@ == old(s)@ + seq![c],
{
    s.push(c);
}

/// The character for a digit value below ten.
pub fn digit_to_char(d: u8) -> (c: char)
    requires
        d < 10,
    ensures
        c == digit_char(d as nat),
{
    match d {
        0 => '0',
        1 => '1',
        2 => '2',
        3 => '3',
        4 => '4',
        5 => '5',
        6 => '6',
        7 => '7',
        8 => '8',
        _ => '9',
    }
}

/// Appends the decimal rendering of `n` to `s`.
pub fn push_decimal(s: &mut String, n: u128)
    ensures
        final(s)@ == old(s)@ + dec_chars(n as nat),
    decreases n,
{
    if n >= 10 {
        push_decimal(s, n / 10);
    }
    let d: u8 = (n % 10) as u8;
    push_char(s, digit_to_char(d));
}

/// Appends the decimal rendering of `n`, zero-padded to two digits, to `s`.
pub fn push_decimal2(s: &mut String, n: u128)
    ensures
        final(s)@ == old(s)@ + dec2_chars(n as nat),
{
    if n < 10 {
        push_char(s, '0');
    }
    push_decimal(s, n);
}

/// Relies on num-format's `ToFormattedString` with `Locale::en`: the decimal
/// digits of `n` with groups of three digits separated by `','`.
#[verifier::external_body]
pub(crate) fn grouped_string(n: u128) -> (s: String)
    ensures
        s@ == grouped_chars(n as nat),
{
    n.to_formatted_string(&Locale::en)
}

} // verus!
