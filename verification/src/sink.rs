//! Durable match records: one newline-terminated line per match, holding the
//! matched address and the private scalar's hexadecimal rendering, in a form
//! from which the keypair can be reconstructed exactly.

use vstd::prelude::*;
use crate::candidate::Candidate;
use crate::encoding::{hex_chars, hex_decode_chars, hex_val, is_hex_seq, is_hex_char,
    hex_char_value, lemma_hex_round_trip, lemma_hex_decode_concat, lemma_hex_char_plain};
use crate::text::push_char;

verus! {

/// The body of one match record: the address, one space, and the scalar's
/// lowercase hexadecimal rendering.
pub open spec fn record_chars(address: Seq<char>, scalar: Seq<u8>) -> Seq<char> {
    address + seq![' '] + hex_chars(scalar)
}

/// One persisted record line: the record body terminated by a newline.
pub open spec fn record_line_chars(address: Seq<char>, scalar: Seq<u8>) -> Seq<char> {
    record_chars(address, scalar) + seq!['\n']
}

/// Renders the newline-terminated record line persisted for a match.
pub fn record_line(c: &Candidate) -> (line: String)
    ensures
        line@ == record_line_chars(c.address@, c.scalar@),
{
    let mut line = c.address.clone();
    push_char(&mut line, ' ');
    let hex = crate::encoding::hex_encode(c.scalar.as_slice());
    line.append(hex.as_str());
    push_char(&mut line, '\n');
    proof {
        assert(line@ =~= record_line_chars(c.address@, c.scalar@));
    }
    line
}

/// The index of the first space in `s`, if any.
pub open spec fn find_space(s: Seq<char>) -> Option<int>
    decreases s.len(),
{
    if s.len() == 0 {
        None
    } else if s[0] == ' ' {
        Some(0int)
    } else {
        match find_space(s.drop_first()) {
            None => None,
            Some(i) => Some(i + 1),
        }
    }
}

/// `find_space` returns the least index of a space, and `None` exactly when
/// there is no space.
pub proof fn lemma_find_space(s: Seq<char>)
    ensures
        match find_space(s) {
            Some(i) => 0 <= i < s.len() && s[i] == ' ' && (forall|j: int|
                0 <= j < i ==> s[j] != ' '),
            None => forall|j: int| 0 <= j < s.len() ==> s[j] != ' ',
        },
    decreases s.len(),
{
    if s.len() > 0 && s[0] != ' ' {
        let rest = s.drop_first();
        lemma_find_space(rest);
        match find_space(rest) {
            None => {
                assert forall|j: int| 0 <= j < s.len() implies s[j] != ' ' by {
                    if j > 0 {
                        assert(s[j] == rest[j - 1]);
                    }
                }
            },
            Some(i) => {
                assert(s[i + 1] == rest[i]);
                assert forall|j: int| 0 <= j < i + 1 implies s[j] != ' ' by {
                    if j > 0 {
                        assert(s[j] == rest[j - 1]);
                    }
                }
            },
        }
    }
}

/// The record denoted by one record body (a line without its terminating
/// newline): the part before the first space is the address, and the part
/// after it must be a well-formed hexadecimal rendering of the scalar.
pub open spec fn spec_parse_record(line: Seq<char>) -> Option<(Seq<char>, Seq<u8>)> {
    match find_space(line) {
        None => None,
        Some(i) => {
            let hex = line.skip(i + 1);
            if is_hex_seq(hex) {
                Some((line.subrange(0, i), hex_decode_chars(hex)))
            } else {
                None
            }
        },
    }
}

/// Record lines round-trip: parsing the body of the line rendered for an
/// address and scalar yields that address and scalar back, for any address
/// without a space (addresses are `0x` and hexadecimal digits, so every
/// rendered address qualifies).
pub proof fn lemma_record_round_trip(address: Seq<char>, scalar: Seq<u8>)
    requires
        forall|j: int| 0 <= j < address.len() ==> address[j] != ' ',
    ensures
        spec_parse_record(record_chars(address, scalar)) == Some((address, scalar)),
{
    let line = record_chars(address, scalar);
    let alen = address.len() as int;
    lemma_hex_round_trip(scalar);
    assert(line[alen] == ' ');
    lemma_find_space(line);
    match find_space(line) {
        None => {
            assert(false);
        },
        Some(i) => {
            if i < alen {
                assert(line[i] == address[i]);
                assert(false);
            }
            if i > alen {
                assert(false);
            }
            assert(line.skip(alen + 1) =~= hex_chars(scalar));
            assert(line.subrange(0, alen) =~= address);
        },
    }
}

/// A derived address holds no space and no newline: it is `0x` followed by
/// hexadecimal digits.
pub proof fn lemma_address_chars_plain(scalar: Seq<u8>)
    ensures
        forall|j: int|
            0 <= j < crate::candidate::address_chars(scalar).len()
                ==> crate::candidate::address_chars(scalar)[j] != ' '
                && crate::candidate::address_chars(scalar)[j] != '\n',
{
    let a = crate::candidate::address_chars(scalar);
    let h = hex_chars(crate::candidate::keccak256(
        crate::candidate::public_key_bytes(scalar).skip(1),
    ).skip(12));
    lemma_hex_round_trip(crate::candidate::keccak256(
        crate::candidate::public_key_bytes(scalar).skip(1),
    ).skip(12));
    assert forall|j: int| 0 <= j < a.len() implies a[j] != ' ' && a[j] != '\n' by {
        if j >= 2 {
            assert(a[j] == h[j - 2]);
            assert(is_hex_char(h[j - 2]));
            lemma_hex_char_plain(h[j - 2]);
        }
    }
}

/// A persisted record allows exact reconstruction: parsing the body of the
/// record line rendered for a well-formed candidate yields its address and
/// private scalar back, and that address is the one the scalar derives to.
pub proof fn lemma_record_reconstruction(c: Candidate)
    requires
        c.wf(),
    ensures
        spec_parse_record(record_chars(c.address@, c.scalar@)) == Some((c.address@, c.scalar@)),
        c.address@ == crate::candidate::address_chars(c.scalar@),
{
    lemma_address_chars_plain(c.scalar@);
    lemma_record_round_trip(c.address@, c.scalar@);
}

/// Decodes a lowercase hexadecimal string into bytes, or returns `None`
/// exactly when the string is not a well-formed even-length lowercase
/// hexadecimal rendering.
pub fn hex_decode(h: &str) -> (r: Option<Vec<u8>>)
    ensures
        match r {
            Some(v) => is_hex_seq(h@) && v@ == hex_decode_chars(h@),
            None => !is_hex_seq(h@),
        },
{
    let n = h.unicode_len();
    if n % 2 != 0 {
        return None;
    }
    let mut v: Vec<u8> = Vec::new();
    let mut i: usize = 0;
    while i < n
        invariant
            i <= n,
            i % 2 == 0,
            n % 2 == 0,
            n == h@.len(),
            forall|j: int| 0 <= j < i ==> is_hex_char(#[trigger] h@[j]),
            v@ == hex_decode_chars(h@.take(i as int)),
        decreases n - i,
    {
        let c1 = h.get_char(i);
        let c2 = h.get_char(i + 1);
        let hi = match hex_char_value(c1) {
            Some(d) => d,
            None => {
                return None;
            },
        };
        let lo = match hex_char_value(c2) {
            Some(d) => d,
            None => {
                return None;
            },
        };
        v.push(hi * 16 + lo);
        proof {
            let pre = h@.take(i as int);
            let pair = h@.subrange(i as int, i + 2);
            assert(h@.take(i + 2) =~= pre + pair);
            lemma_hex_decode_concat(pre, pair);
            assert(pair.skip(2) =~= Seq::<char>::empty());
            assert(pair.len() == 2);
            assert(hex_decode_chars(pair.skip(2)) =~= Seq::<u8>::empty());
            assert(hex_decode_chars(pair) =~= seq![(hex_val(pair[0]) * 16 + hex_val(
                pair[1],
            )) as u8]);
            assert(pair[0] == h@[i as int] && pair[1] == h@[i + 1]);
            assert(v@ =~= hex_decode_chars(h@.take(i + 2)));
        }
        i = i + 2;
    }
    proof {
        assert(h@.take(n as int) =~= h@);
    }
    Some(v)
}

/// Parses one record body (a line without its terminating newline) back into
/// the address and the scalar bytes, or returns `None` exactly when the line
/// is not a well-formed record.
pub fn parse_record(line: &str) -> (r: Option<(String, Vec<u8>)>)
    ensures
        match r {
            Some(p) => spec_parse_record(line@) == Some((p.0@, p.1@)),
            None => spec_parse_record(line@) is None,
        },
{
    let n = line.unicode_len();
    let mut i: usize = 0;
    while i < n
        invariant
            i <= n,
            n == line@.len(),
            forall|j: int| 0 <= j < i ==> line@[j] != ' ',
        decreases n - i,
    {
        if line.get_char(i) == ' ' {
            proof {
                lemma_find_space(line@);
            }
            let address = String::from_str(line.substring_char(0, i));
            let hex_part = line.substring_char(i + 1, n);
            proof {
                assert(hex_part@ =~= line@.skip(i + 1));
            }
            return match hex_decode(hex_part) {
                Some(bytes) => Some((address, bytes)),
                None => None,
            };
        }
        i = i + 1;
    }
    proof {
        lemma_find_space(line@);
    }
    None
}

/// The number of occurrences of `c` in `s`.
pub open spec fn count_char(s: Seq<char>, c: char) -> nat
    decreases s.len(),
{
    if s.len() == 0 {
        0
    } else {
        count_char(s.drop_last(), c) + (if s.last() == c {
            1nat
        } else {
            0nat
        })
    }
}

/// Whether `s` is one complete line: nonempty, terminated by a newline, with
/// no other newline.
pub open spec fn is_single_line(s: Seq<char>) -> bool {
    s.len() > 0 && s.last() == '\n' && forall|i: int| 0 <= i < s.len() - 1 ==> s[i] != '\n'
}

/// Counting occurrences distributes over concatenation.
pub proof fn lemma_count_char_concat(a: Seq<char>, b: Seq<char>, c: char)
    ensures
        count_char(a + b, c) == count_char(a, c) + count_char(b, c),
    decreases b.len(),
{
    if b.len() == 0 {
        assert(a + b =~= a);
    } else {
        lemma_count_char_concat(a, b.drop_last(), c);
        assert((a + b).drop_last() =~= a + b.drop_last());
        assert((a + b).last() == b.last());
    }
}

/// A sequence without occurrences of `c` counts zero of them.
pub proof fn lemma_count_char_none(s: Seq<char>, c: char)
    requires
        forall|i: int| 0 <= i < s.len() ==> s[i] != c,
    ensures
        count_char(s, c) == 0,
    decreases s.len(),
{
    if s.len() > 0 {
        lemma_count_char_none(s.drop_last(), c);
    }
}

/// One complete line holds exactly one newline.
pub proof fn lemma_single_line_one_newline(s: Seq<char>)
    requires
        is_single_line(s),
    ensures
        count_char(s, '\n') == 1,
{
    lemma_count_char_none(s.drop_last(), '\n');
}

/// A record line is one complete line whenever the address holds no newline
/// (addresses are `0x` and hexadecimal digits, so every rendered address
/// qualifies).
pub proof fn lemma_record_line_single(address: Seq<char>, scalar: Seq<u8>)
    requires
        forall|j: int| 0 <= j < address.len() ==> address[j] != '\n',
    ensures
        is_single_line(record_line_chars(address, scalar)),
{
    let line = record_line_chars(address, scalar);
    lemma_hex_round_trip(scalar);
    assert forall|i: int| 0 <= i < line.len() - 1 implies line[i] != '\n' by {
        let alen = address.len() as int;
        if i < alen {
            assert(line[i] == address[i]);
        } else if i == alen {
            assert(line[i] == ' ');
        } else {
            let h = hex_chars(scalar);
            assert(line[i] == h[i - alen - 1]);
            assert(is_hex_char(h[i - alen - 1]));
            lemma_hex_char_plain(h[i - alen - 1]);
        }
    }
}

/// The store grows by exactly one line per match: the concatenation of any
/// number of complete lines holds exactly that number of newlines, so after
/// `n` persisted records the store holds `n` lines.
pub proof fn lemma_line_count(lines: Seq<Seq<char>>)
    requires
        forall|i: int| 0 <= i < lines.len() ==> is_single_line(#[trigger] lines[i]),
    ensures
        count_char(lines.flatten(), '\n') == lines.len(),
    decreases lines.len(),
{
    if lines.len() == 0 {
        assert(lines.flatten() =~= Seq::<char>::empty());
    } else {
        lemma_line_count(lines.drop_first());
        lemma_single_line_one_newline(lines.first());
        lemma_count_char_concat(lines.first(), lines.drop_first().flatten(), '\n');
        assert(lines.flatten() == lines.first() + lines.drop_first().flatten());
    }
}

} // verus!
