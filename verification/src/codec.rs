//! Base64 encoding for the file ingestion pipeline: a specification of the
//! standard alphabet with '=' padding, the encoder (delegated to the
//! `base64` crate), a specification of strict decoding, and the round-trip
//! law tying the two together.

use vstd::prelude::*;
use vstd::arithmetic::div_mod::{
    lemma_fundamental_div_mod,
    lemma_fundamental_div_mod_converse_div,
    lemma_fundamental_div_mod_converse_mod,
};
use base64::Engine;

verus! {

/// The byte of the standard base64 alphabet for a 6-bit value:
/// 'A'..'Z', 'a'..'z', '0'..'9', '+', '/'.
pub open spec fn b64_alphabet_byte(v: int) -> u8 {
    if v < 26 {
        (65 + v) as u8
    } else if v < 52 {
        (97 + (v - 26)) as u8
    } else if v < 62 {
        (48 + (v - 52)) as u8
    } else if v == 62 {
        43
    } else {
        47
    }
}

pub open spec fn b64_char(v: int) -> char {
    b64_alphabet_byte(v) as char
}

/// Standard base64 encoding with '=' padding: each full 3-byte group
/// becomes 4 alphabet characters; a trailing 1- or 2-byte group is padded
/// to 4 characters with '='.
pub open spec fn b64_encode(s: Seq<u8>) -> Seq<char>
    decreases s.len(),
{
    if s.len() == 0 {
        Seq::empty()
    } else if s.len() == 1 {
        let b0 = s[0] as int;
        seq![b64_char(b0 / 4), b64_char((b0 % 4) * 16), '=', '=']
    } else if s.len() == 2 {
        let b0 = s[0] as int;
        let b1 = s[1] as int;
        seq![b64_char(b0 / 4), b64_char((b0 % 4) * 16 + b1 / 16), b64_char((b1 % 16) * 4), '=']
    } else {
        let b0 = s[0] as int;
        let b1 = s[1] as int;
        let b2 = s[2] as int;
        seq![
            b64_char(b0 / 4),
            b64_char((b0 % 4) * 16 + b1 / 16),
            b64_char((b1 % 16) * 4 + b2 / 64),
            b64_char(b2 % 64),
        ] + b64_encode(s.skip(3))
    }
}

/// The 6-bit value of an alphabet character, or -1 for any other character.
pub open spec fn b64_val(c: char) -> int {
    let b = c as int;
    if 65 <= b && b <= 90 {
        b - 65
    } else if 97 <= b && b <= 122 {
        b - 97 + 26
    } else if 48 <= b && b <= 57 {
        b - 48 + 52
    } else if b == 43 {
        62
    } else if b == 47 {
        63
    } else {
        -1
    }
}

/// Strict decoding of a final 4-character group: padding only at the end,
/// and the unused low bits of the last alphabet character must be zero.
pub open spec fn b64_decode_tail(s: Seq<char>) -> Option<Seq<u8>> {
    let v0 = b64_val(s[0]);
    let v1 = b64_val(s[1]);
    if v0 >= 0 && v1 >= 0 {
        if s[2] == '=' && s[3] == '=' {
            if v1 % 16 == 0 {
                Some(seq![(v0 * 4 + v1 / 16) as u8])
            } else {
                None
            }
        } else if s[3] == '=' {
            let v2 = b64_val(s[2]);
            if v2 >= 0 && v2 % 4 == 0 {
                Some(seq![(v0 * 4 + v1 / 16) as u8, ((v1 % 16) * 16 + v2 / 4) as u8])
            } else {
                None
            }
        } else {
            let v2 = b64_val(s[2]);
            let v3 = b64_val(s[3]);
            if v2 >= 0 && v3 >= 0 {
                Some(
                    seq![
                        (v0 * 4 + v1 / 16) as u8,
                        ((v1 % 16) * 16 + v2 / 4) as u8,
                        ((v2 % 4) * 64 + v3) as u8,
                    ],
                )
            } else {
                None
            }
        }
    } else {
        None
    }
}

/// Strict decoding with the standard alphabet: the input is a whole number
/// of 4-character groups, all groups before the last are unpadded, and the
/// last follows `b64_decode_tail`.
pub open spec fn b64_decode(s: Seq<char>) -> Option<Seq<u8>>
    decreases s.len(),
{
    if s.len() == 0 {
        Some(Seq::empty())
    } else if s.len() < 4 {
        None
    } else if s.len() == 4 {
        b64_decode_tail(s)
    } else {
        let v0 = b64_val(s[0]);
        let v1 = b64_val(s[1]);
        let v2 = b64_val(s[2]);
        let v3 = b64_val(s[3]);
        if v0 >= 0 && v1 >= 0 && v2 >= 0 && v3 >= 0 {
            match b64_decode(s.skip(4)) {
                Some(rest) => Some(
                    seq![
                        (v0 * 4 + v1 / 16) as u8,
                        ((v1 % 16) * 16 + v2 / 4) as u8,
                        ((v2 % 4) * 64 + v3) as u8,
                    ] + rest,
                ),
                None => None,
            }
        } else {
            None
        }
    }
}

/// Relies on `base64::engine::general_purpose::STANDARD` (the RFC 4648
/// standard alphabet with '=' padding) through `Engine::encode`.
#[verifier::external_body]
fn base64_std_encode(bytes: &[u8]) -> (r: String)
    ensures
        r@ == b64_encode(bytes@),
{
    base64::engine::general_purpose::STANDARD.encode(bytes)
}

/// Encodes a byte sequence to standard base64 text with padding.
pub fn encode_base64(bytes: &Vec<u8>) -> (r: String)
    ensures
        r@ == b64_encode(bytes@),
{
    base64_std_encode(bytes.as_slice())
}

/// The empty byte sequence encodes to the empty string.
pub proof fn lemma_b64_encode_empty()
    ensures
        b64_encode(Seq::<u8>::empty()) == Seq::<char>::empty(),
{
}

/// Every alphabet character decodes back to the value it encodes, and no
/// alphabet character is the padding character.
proof fn lemma_b64_char_val(v: int)
    requires
        0 <= v < 64,
    ensures
        b64_val(b64_char(v)) == v,
        b64_char(v) != '=',
{
}

/// Dividing `q * d + r` by `d` recovers `q` and `r` when `0 <= r < d`.
proof fn lemma_regroup(q: int, r: int, d: int)
    requires
        d > 0,
        0 <= r < d,
    ensures
        (q * d + r) / d == q,
        (q * d + r) % d == r,
{
    lemma_fundamental_div_mod_converse_div(q * d + r, d, q, r);
    lemma_fundamental_div_mod_converse_mod(q * d + r, d, q, r);
}

/// The six-bit values of a 3-byte group reassemble to the bytes they encode.
proof fn lemma_group_reconstruct(b0: int, b1: int, b2: int)
    requires
        0 <= b0 < 256,
        0 <= b1 < 256,
        0 <= b2 < 256,
    ensures
        0 <= b0 / 4 < 64,
        0 <= (b0 % 4) * 16 + b1 / 16 < 64,
        0 <= (b1 % 16) * 4 + b2 / 64 < 64,
        0 <= b2 % 64 < 64,
        (b0 / 4) * 4 + ((b0 % 4) * 16 + b1 / 16) / 16 == b0,
        (((b0 % 4) * 16 + b1 / 16) % 16) * 16 + ((b1 % 16) * 4 + b2 / 64) / 4 == b1,
        ((((b1 % 16) * 4 + b2 / 64)) % 4) * 64 + b2 % 64 == b2,
{
    lemma_fundamental_div_mod(b0, 4);
    lemma_fundamental_div_mod(b1, 16);
    lemma_fundamental_div_mod(b2, 64);
    lemma_regroup(b0 % 4, b1 / 16, 16);
    lemma_regroup(b1 % 16, b2 / 64, 4);
}

/// Round-trip law: strict decoding recovers exactly the bytes that were
/// encoded, for every byte sequence including the empty one.
pub proof fn lemma_b64_round_trip(s: Seq<u8>)
    ensures
        b64_decode(b64_encode(s)) == Some(s),
    decreases s.len(),
{
    let e = b64_encode(s);
    if s.len() == 0 {
        assert(b64_decode(e) =~= Some(s));
    } else if s.len() == 1 {
        let b0 = s[0] as int;
        lemma_fundamental_div_mod(b0, 4);
        lemma_regroup(b0 % 4, 0, 16);
        lemma_b64_char_val(b0 / 4);
        lemma_b64_char_val((b0 % 4) * 16);
        assert(b64_decode_tail(e) matches Some(d) && d =~= s);
    } else if s.len() == 2 {
        let b0 = s[0] as int;
        let b1 = s[1] as int;
        lemma_group_reconstruct(b0, b1, 0);
        lemma_b64_char_val(b0 / 4);
        lemma_b64_char_val((b0 % 4) * 16 + b1 / 16);
        lemma_b64_char_val((b1 % 16) * 4);
        assert(b64_decode_tail(e) matches Some(d) && d =~= s);
    } else {
        let b0 = s[0] as int;
        let b1 = s[1] as int;
        let b2 = s[2] as int;
        lemma_group_reconstruct(b0, b1, b2);
        lemma_b64_char_val(b0 / 4);
        lemma_b64_char_val((b0 % 4) * 16 + b1 / 16);
        lemma_b64_char_val((b1 % 16) * 4 + b2 / 64);
        lemma_b64_char_val(b2 % 64);
        let rest = b64_encode(s.skip(3));
        if s.len() == 3 {
            assert(s.skip(3).len() == 0);
            assert(rest =~= Seq::<char>::empty());
            assert(e.len() == 4);
            assert(b64_decode_tail(e) matches Some(d) && d =~= s);
        } else {
            lemma_b64_round_trip(s.skip(3));
            assert(e.skip(4) =~= rest);
            assert(s.skip(3).len() > 0);
            assert(rest.len() >= 4);
            assert(e.len() > 4);
            let r = b64_decode(rest);
            assert(r == Some(s.skip(3)));
            assert(b64_decode(e) matches Some(d) && d =~= s);
        }
    }
}

} // verus!
