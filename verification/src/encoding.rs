//! Lowercase hexadecimal encoding and its verified inverse.

use vstd::prelude::*;

verus! {

/// The lowercase hexadecimal character for a nibble value.
pub open spec fn hex_char(d: nat) -> char {
    if d < 10 {
        crate::text::digit_char(d)
    } else if d == 10 {
        'a'
    } else if d == 11 {
        'b'
    } else if d == 12 {
        'c'
    } else if d == 13 {
        'd'
    } else if d == 14 {
        'e'
    } else {
        'f'
    }
}

/// Lowercase hexadecimal rendering of a byte sequence: two digits per byte,
/// high nibble first, in the order of the bytes.
pub open spec fn hex_chars(b: Seq<u8>) -> Seq<char>
    decreases b.len(),
{
    if b.len() == 0 {
        Seq::empty()
    } else {
        seq![hex_char((b.first() >> 4) as nat), hex_char((b.first() & 0x0f) as nat)]
            + hex_chars(b.drop_first())
    }
}

/// Relies on `hex::encode`: two lowercase hexadecimal digits per input byte,
/// high nibble first, in input order.
#[verifier::external_body]
pub(crate) fn hex_encode(data: &[u8]) -> (s: String)
    ensures
        s@ == hex_chars(data@),
{
    hex::encode(data)
}

/// Whether `c` is a lowercase hexadecimal digit.
pub open spec fn is_hex_char(c: char) -> bool {
    exists|d: nat| d < 16 && c == hex_char(d)
}

/// The nibble value of a lowercase hexadecimal digit (zero for other
/// characters).
pub open spec fn hex_val(c: char) -> nat {
    if c == '0' {
        0
    } else if c == '1' {
        1
    } else if c == '2' {
        2
    } else if c == '3' {
        3
    } else if c == '4' {
        4
    } else if c == '5' {
        5
    } else if c == '6' {
        6
    } else if c == '7' {
        7
    } else if c == '8' {
        8
    } else if c == '9' {
        9
    } else if c == 'a' {
        10
    } else if c == 'b' {
        11
    } else if c == 'c' {
        12
    } else if c == 'd' {
        13
    } else if c == 'e' {
        14
    } else if c == 'f' {
        15
    } else {
        0
    }
}

/// Whether `s` is a well-formed lowercase hexadecimal rendering: even length
/// and lowercase hexadecimal digits throughout.
pub open spec fn is_hex_seq(s: Seq<char>) -> bool {
    s.len() % 2 == 0 && forall|i: int| 0 <= i < s.len() ==> is_hex_char(#[trigger] s[i])
}

/// The bytes encoded by a lowercase hexadecimal character sequence, reading
/// two digits per byte (meaningful when `is_hex_seq(s)` holds).
pub open spec fn hex_decode_chars(s: Seq<char>) -> Seq<u8>
    decreases s.len(),
{
    if s.len() < 2 {
        Seq::empty()
    } else {
        seq![(hex_val(s[0]) * 16 + hex_val(s[1])) as u8] + hex_decode_chars(s.skip(2))
    }
}

/// A nibble's hexadecimal character decodes back to the nibble.
pub proof fn lemma_hex_char_val(d: nat)
    requires
        d < 16,
    ensures
        hex_val(hex_char(d)) == d,
        is_hex_char(hex_char(d)),
{
}

/// Hexadecimal encoding round-trips: decoding the rendering of any byte
/// sequence yields that byte sequence, and the rendering is a well-formed
/// lowercase hexadecimal sequence of twice its length.
pub proof fn lemma_hex_round_trip(b: Seq<u8>)
    ensures
        hex_chars(b).len() == 2 * b.len(),
        is_hex_seq(hex_chars(b)),
        hex_decode_chars(hex_chars(b)) == b,
    decreases b.len(),
{
    if b.len() == 0 {
        assert(hex_decode_chars(hex_chars(b)) =~= b);
    } else {
        let first = b.first();
        assert((first >> 4) < 16 && (first & 0x0f) < 16 && (first >> 4) * 16 + (first & 0x0f)
            == first) by (bit_vector);
        lemma_hex_char_val((first >> 4) as nat);
        lemma_hex_char_val((first & 0x0f) as nat);
        lemma_hex_round_trip(b.drop_first());
        let s = hex_chars(b);
        assert(s.skip(2) =~= hex_chars(b.drop_first()));
        assert(forall|i: int| 0 <= i < s.len() ==> is_hex_char(#[trigger] s[i])) by {
            assert forall|i: int| 0 <= i < s.len() implies is_hex_char(#[trigger] s[i]) by {
                if i >= 2 {
                    assert(s[i] == hex_chars(b.drop_first())[i - 2]);
                }
            }
        }
        assert(hex_decode_chars(s) =~= b);
    }
}

/// Decoding distributes over splitting a hexadecimal sequence behind an even
/// number of digits.
pub proof fn lemma_hex_decode_concat(p: Seq<char>, t: Seq<char>)
    requires
        p.len() % 2 == 0,
    ensures
        hex_decode_chars(p + t) == hex_decode_chars(p) + hex_decode_chars(t),
    decreases p.len(),
{
    if p.len() == 0 {
        assert(p + t =~= t);
        assert(hex_decode_chars(p + t) =~= hex_decode_chars(p) + hex_decode_chars(t));
    } else {
        let rest = p.skip(2);
        lemma_hex_decode_concat(rest, t);
        assert((p + t).skip(2) =~= rest + t);
        assert(hex_decode_chars(p + t) =~= hex_decode_chars(p) + hex_decode_chars(t));
    }
}

/// A lowercase hexadecimal digit is neither a space nor a newline.
pub proof fn lemma_hex_char_plain(c: char)
    requires
        is_hex_char(c),
    ensures
        c != ' ' && c != '\n',
{
    let d = choose|d: nat| d < 16 && c == hex_char(d);
}

/// The value of a lowercase hexadecimal digit character.
pub fn hex_char_value(c: char) -> (r: Option<u8>)
    ensures
        match r {
            Some(v) => is_hex_char(c) && v == hex_val(c) && v < 16,
            None => !is_hex_char(c),
        },
{
    let r = match c {
        '0' => Some(0u8),
        '1' => Some(1u8),
        '2' => Some(2u8),
        '3' => Some(3u8),
        '4' => Some(4u8),
        '5' => Some(5u8),
        '6' => Some(6u8),
        '7' => Some(7u8),
        '8' => Some(8u8),
        '9' => Some(9u8),
        'a' => Some(10u8),
        'b' => Some(11u8),
        'c' => Some(12u8),
        'd' => Some(13u8),
        'e' => Some(14u8),
        'f' => Some(15u8),
        _ => None,
    };
    proof {
        if r is Some {
            let v = r->0;
            assert(c == hex_char(v as nat));
            lemma_hex_char_val(v as nat);
        } else {
            if is_hex_char(c) {
                let d = choose|d: nat| d < 16 && c == hex_char(d);
                assert(false);
            }
        }
    }
    r
}

} // verus!
