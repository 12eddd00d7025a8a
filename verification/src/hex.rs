//! Hexadecimal text, and the public keys that are written in it.

use crate::ldk::{public_key_from_slice, public_key_of};
use crate::text::{chars_of, is_space, no_space};
use vstd::prelude::*;
use vstd::string::*;

verus! {

/// The length of a public key in its compressed form.
pub const PUBLIC_KEY_LEN: usize = 33;

/// Whether the character is a hexadecimal digit of either case.
pub open spec fn is_hex_digit(c: char) -> bool {
    '0' <= c <= '9' || 'a' <= c <= 'f' || 'A' <= c <= 'F'
}

/// The value of a hexadecimal digit.
pub open spec fn hex_digit_value(c: char) -> int {
    if '0' <= c <= '9' {
        c as u32 - '0' as u32
    } else if 'a' <= c <= 'f' {
        c as u32 - 'a' as u32 + 10
    } else {
        c as u32 - 'A' as u32 + 10
    }
}

/// The byte that two hexadecimal digits denote.
pub open spec fn hex_pair(high: char, low: char) -> u8 {
    (hex_digit_value(high) * 16 + hex_digit_value(low)) as u8
}

/// The bytes that a hexadecimal text denotes, two digits each; a single digit left over at the
/// end denotes none, and a character that is no digit makes the whole text invalid.
pub open spec fn hex_bytes(s: Seq<char>) -> Option<Seq<u8>> {
    if forall|i: int| 0 <= i < s.len() ==> is_hex_digit(#[trigger] s[i]) {
        Some(Seq::new(s.len() / 2, |i: int| hex_pair(s[2 * i], s[2 * i + 1])))
    } else {
        None
    }
}

/// The lower-case hexadecimal digit of a value below sixteen.
pub open spec fn hex_digit_char(v: int) -> char {
    if v < 10 {
        ('0' as u32 + v) as char
    } else {
        ('a' as u32 + (v - 10)) as char
    }
}

/// The hexadecimal text of some bytes, two lower-case digits each.
pub open spec fn hex_text(b: Seq<u8>) -> Seq<char> {
    Seq::new(
        2 * b.len(),
        |i: int|
            if i % 2 == 0 {
                hex_digit_char(b[i / 2] as int / 16)
            } else {
                hex_digit_char(b[i / 2] as int % 16)
            },
    )
}

/// The value of a hexadecimal digit, if the character is one.
fn hex_digit(c: char) -> (r: Option<u8>)
    ensures
        r is Some == is_hex_digit(c),
        r is Some ==> r->0 == hex_digit_value(c) && r->0 < 16,
{
    if '0' <= c && c <= '9' {
        Some((c as u32 - 48u32) as u8)
    } else if 'a' <= c && c <= 'f' {
        Some((c as u32 - 97u32 + 10u32) as u8)
    } else if 'A' <= c && c <= 'F' {
        Some((c as u32 - 65u32 + 10u32) as u8)
    } else {
        None
    }
}

/// The lower-case digit of a value below sixteen.
fn hex_char(v: u8) -> (r: char)
    requires
        v < 16,
    ensures
        r == hex_digit_char(v as int),
{
    if v < 10 {
        (v + 48u8) as char
    } else {
        (v - 10u8 + 97u8) as char
    }
}

/// Reads hexadecimal text.
pub fn to_vec(hex: &str) -> (r: Option<Vec<u8>>)
    ensures
        r is Some == hex_bytes(hex@) is Some,
        r is Some ==> r->0@ == hex_bytes(hex@)->0,
{
    let cs: Vec<char> = chars_of(hex);
    let mut out: Vec<u8> = Vec::new();
    let mut high: u8 = 0;
    let mut i: usize = 0;
    while i < cs.len()
        invariant
            i <= cs@.len(),
            cs@ == hex@,
            forall|k: int| 0 <= k < i ==> is_hex_digit(#[trigger] hex@[k]),
            out@.len() == i / 2,
            forall|k: int|
                0 <= k < out@.len() ==> #[trigger] out@[k] == hex_pair(
                    hex@[2 * k],
                    hex@[2 * k + 1],
                ),
            i % 2 == 1 ==> high == hex_digit_value(hex@[i - 1]) && high < 16,
        decreases cs.len() - i,
    {
        match hex_digit(cs[i]) {
            None => {
                assert(!is_hex_digit(hex@[i as int]));
                return None;
            },
            Some(v) => {
                if i % 2 == 0 {
                    high = v;
                } else {
                    out.push(high * 16 + v);
                }
            },
        }
        i = i + 1;
    }
    assert(out@ =~= hex_bytes(hex@)->0);
    Some(out)
}

/// Writes bytes in lower-case hexadecimal.
pub fn hex_str(value: &[u8]) -> (r: String)
    ensures
        r@ == hex_text(value@),
{
    let mut out: String = String::new();
    let mut i: usize = 0;
    while i < value.len()
        invariant
            i <= value@.len(),
            out@ == hex_text(value@.take(i as int)),
        decreases value.len() - i,
    {
        let b: u8 = value[i];
        let ghost before = value@.take(i as int);
        out.push(hex_char(b / 16));
        out.push(hex_char(b % 16));
        i = i + 1;
        proof {
            let now = value@.take(i as int);
            assert(now =~= before.push(b));
            assert(out@ =~= hex_text(now)) by {
                assert forall|k: int| 0 <= k < 2 * before.len() implies hex_text(now)[k]
                    == hex_text(before)[k] by {
                    assert(now[k / 2] == before[k / 2]);
                }
                assert((2 * before.len() + 1) as int % 2 == 1);
                assert((2 * before.len() + 1) as int / 2 == before.len());
            }
        }
    }
    assert(value@.take(i as int) =~= value@);
    out
}

/// The public key that a text denotes: the hexadecimal form of a valid compressed key.
pub open spec fn compressed_pubkey(s: Seq<char>) -> Option<[u8; 33]> {
    if s.len() == 2 * PUBLIC_KEY_LEN && hex_bytes(s) is Some {
        public_key_of(hex_bytes(s)->0)
    } else {
        None
    }
}

/// Reads a public key in compressed form.
pub fn to_compressed_pubkey(hex: &str) -> (r: Option<[u8; 33]>)
    ensures
        r == compressed_pubkey(hex@),
{
    if chars_of(hex).len() != 2 * PUBLIC_KEY_LEN {
        return None;
    }
    match to_vec(hex) {
        Some(data) => public_key_from_slice(data.as_slice()),
        None => None,
    }
}

/// The digit of a value denotes that value.
proof fn lemma_hex_digit_round_trip(v: int)
    requires
        0 <= v < 16,
    ensures
        is_hex_digit(hex_digit_char(v)),
        hex_digit_value(hex_digit_char(v)) == v,
{
}

/// Reading the hexadecimal text of some bytes gives those bytes back.
pub proof fn law_hex_round_trip(b: Seq<u8>)
    ensures
        hex_bytes(hex_text(b)) == Some(b),
{
    let s = hex_text(b);
    assert forall|i: int| 0 <= i < s.len() implies is_hex_digit(#[trigger] s[i]) by {
        lemma_hex_digit_round_trip(b[i / 2] as int / 16);
        lemma_hex_digit_round_trip(b[i / 2] as int % 16);
    }
    let back = hex_bytes(s)->0;
    assert forall|i: int| 0 <= i < b.len() implies #[trigger] back[i] == b[i] by {
        lemma_hex_digit_round_trip(b[i] as int / 16);
        lemma_hex_digit_round_trip(b[i] as int % 16);
        assert((2 * i) % 2 == 0 && (2 * i) / 2 == i);
        assert((2 * i + 1) % 2 == 1 && (2 * i + 1) / 2 == i);
    }
    assert(back =~= b);
}

/// The hexadecimal text of some bytes is a word: no space stands in it.
pub proof fn lemma_hex_unbroken(b: Seq<u8>)
    ensures
        no_space(hex_text(b)),
{
    let s = hex_text(b);
    assert forall|i: int| 0 <= i < s.len() implies !is_space(#[trigger] s[i]) by {
        lemma_hex_digit_round_trip(b[i / 2] as int / 16);
        lemma_hex_digit_round_trip(b[i / 2] as int % 16);
        assert(is_hex_digit(s[i]));
    }
}

} // verus!
