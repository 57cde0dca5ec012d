//! What holds between decoding and the standard encoding.

use crate::base64::{
    accepted,
    byte_or_zero,
    canonical,
    cleared,
    data_part,
    decoded,
    encoded,
    in_alphabet,
    lemma_data_len,
    lemma_data_reaches,
    normalized,
    octet_at,
    octets,
    sextet_at,
    sextet_of,
    sextets,
    symbol_of,
    symbols,
    tidied,
    value_of,
    PAD,
};
use vstd::prelude::*;

verus! {

/// Each six-bit value has its own alphabet character, and none is the
/// terminator.
pub proof fn lemma_symbol_round_trip(v: u8)
    requires
        v < 64,
    ensures
        sextet_of(symbol_of(v)) == Some(v),
        value_of(symbol_of(v)) == v,
        symbol_of(v) != PAD,
{
}

/// Each alphabet character is the character of its value.
pub proof fn lemma_value_round_trip(c: u8)
    requires
        sextet_of(c) is Some,
    ensures
        symbol_of(value_of(c)) == c,
        value_of(c) < 64,
        c != PAD,
{
}

/// The data of an encoding are its alphabet characters.
proof fn lemma_data_of_encoded(bytes: Seq<u8>)
    ensures
        data_part(encoded(bytes)) == symbols(bytes),
        in_alphabet(symbols(bytes)),
{
    let text = encoded(bytes);
    let spelled = symbols(bytes);
    let n = spelled.len() as int;
    assert forall|i: int| 0 <= i < n implies text[i] != PAD && (#[trigger] sextet_of(
        spelled[i],
    )) is Some by {
        lemma_symbol_round_trip(sextet_at(bytes, i));
    }
    lemma_data_len(text, n);
    assert(data_part(text) =~= spelled);
}

/// Law: decoding the standard encoding of any bytes gives back exactly
/// those bytes.
pub proof fn law_decode_inverts_encode(bytes: Seq<u8>)
    ensures
        accepted(encoded(bytes)),
        decoded(encoded(bytes)) == bytes,
{
    lemma_data_of_encoded(bytes);
    let spelled = symbols(bytes);
    let s = sextets(spelled);
    let m = bytes.len() as int;
    assert(s.len() == (8 * m + 5) / 6);
    assert(octets(s).len() == m);
    assert forall|j: int| 0 <= j < m implies octets(s)[j] == bytes[j] by {
        let q = j / 3;
        assert forall|k: int| 4 * q <= k < 4 * q + 4 && k < s.len() implies s[k] == sextet_at(
            bytes,
            k,
        ) by {
            lemma_symbol_round_trip(sextet_at(bytes, k));
        }
        lemma_regroup_bytes(
            byte_or_zero(bytes, 3 * q),
            byte_or_zero(bytes, 3 * q + 1),
            byte_or_zero(bytes, 3 * q + 2),
        );
    }
    assert(octets(s) =~= bytes);
}

/// Three bytes cut into four six-bit values and put together again are the
/// same three bytes.
proof fn lemma_regroup_bytes(b0: u8, b1: u8, b2: u8)
    ensures
        ({
            let s0 = b0 / 4;
            let s1 = ((b0 % 4) * 16 + b1 / 16) as u8;
            let s2 = ((b1 % 16) * 4 + b2 / 64) as u8;
            let s3 = b2 % 64;
            &&& s0 < 64 && s1 < 64 && s2 < 64 && s3 < 64
            &&& (s0 * 4 + s1 / 16) as u8 == b0
            &&& ((s1 % 16) * 16 + s2 / 4) as u8 == b1
            &&& ((s2 % 4) * 64 + s3) as u8 == b2
        }),
{
}

/// Four six-bit values put together into three bytes and cut again are the
/// same four values; where a byte is missing, the bits that it would have
/// held come back as zero.
proof fn lemma_regroup_sextets(s0: u8, s1: u8, s2: u8, s3: u8)
    requires
        s0 < 64,
        s1 < 64,
        s2 < 64,
        s3 < 64,
    ensures
        ({
            let b0 = (s0 * 4 + s1 / 16) as u8;
            let b1 = ((s1 % 16) * 16 + s2 / 4) as u8;
            let b2 = ((s2 % 4) * 64 + s3) as u8;
            &&& b0 / 4 == s0
            &&& ((b0 % 4) * 16 + b1 / 16) as u8 == s1
            &&& ((b0 % 4) * 16 + 0u8 / 16) as u8 == cleared(s1, 4)
            &&& ((b1 % 16) * 4 + b2 / 64) as u8 == s2
            &&& ((b1 % 16) * 4 + 0u8 / 64) as u8 == cleared(s2, 2)
            &&& b2 % 64 == s3
        }),
{
}

/// Law: for a text that decodes, encoding what it decodes to gives the text
/// in its standard form. Padding written in the text plays no part: only the
/// data before the first terminator does.
pub proof fn law_encode_normalizes(text: Seq<u8>)
    requires
        accepted(text),
    ensures
        encoded(decoded(text)) == normalized(text),
{
    let data = data_part(text);
    let n = data.len() as int;
    let s = sextets(data);
    let bytes = octets(s);
    let m = bytes.len() as int;
    let tidy = tidied(data);
    let spelled = symbols(bytes);
    assert(m == 6 * n / 8);
    assert(spelled.len() == tidy.len());
    assert forall|k: int| 0 <= k < spelled.len() implies spelled[k] == tidy[k] by {
        let q = k / 4;
        assert forall|i: int| 0 <= i < n implies (#[trigger] s[i]) < 64 && symbol_of(s[i])
            == data[i] by {
            assert(sextet_of(data[i]) is Some);
            lemma_value_round_trip(data[i]);
        }
        let s0 = s[4 * q];
        let s1 = s[4 * q + 1];
        let s2 = if 4 * q + 2 < n {
            s[4 * q + 2]
        } else {
            0u8
        };
        let s3 = if 4 * q + 3 < n {
            s[4 * q + 3]
        } else {
            0u8
        };
        assert(s0 < 64 && s1 < 64);
        lemma_regroup_sextets(s0, s1, s2, s3);
        assert(bytes[3 * q] == octet_at(s, 3 * q));
        if 3 * q + 1 < m {
            assert(bytes[3 * q + 1] == octet_at(s, 3 * q + 1));
        }
        if 3 * q + 2 < m {
            assert(bytes[3 * q + 2] == octet_at(s, 3 * q + 2));
        }
        if k % 4 == 0 {
            assert(sextet_at(bytes, k) == s[k]);
        } else if k % 4 == 1 {
            if 3 * q + 1 < m {
                assert(sextet_at(bytes, k) == s[k]);
            } else {
                assert(sextet_at(bytes, k) == cleared(s[k], 4));
            }
        } else if k % 4 == 2 {
            if 3 * q + 2 < m {
                assert(sextet_at(bytes, k) == s[k]);
            } else {
                assert(sextet_at(bytes, k) == cleared(s[k], 2));
            }
        } else {
            assert(sextet_at(bytes, k) == s[k]);
        }
    }
    assert(spelled =~= tidy);
}

/// Law: a text written the standard way is its own standard form, so
/// encoding what it decodes to gives back the text itself.
pub proof fn law_canonical_text_round_trips(text: Seq<u8>)
    requires
        canonical(text),
    ensures
        accepted(text),
        normalized(text) == text,
        encoded(decoded(text)) == text,
{
    let data = data_part(text);
    let n = data.len() as int;
    if n % 4 == 2 || n % 4 == 3 {
        assert(sextet_of(data[n - 1]) is Some);
        lemma_value_round_trip(data[n - 1]);
    }
    assert(tidied(data) =~= data);
    law_encode_normalizes(text);
}

/// Law: what a text decodes to depends on nothing but the text: two texts
/// with the same characters are accepted alike and decode alike.
pub proof fn law_decoding_is_a_function(a: Seq<u8>, b: Seq<u8>)
    requires
        a =~= b,
    ensures
        accepted(a) == accepted(b),
        decoded(a) == decoded(b),
{
}

/// Law: a text with a character outside the alphabet before any terminator
/// is not accepted.
pub proof fn law_foreign_character_is_refused(text: Seq<u8>, i: int)
    requires
        0 <= i < text.len(),
        sextet_of(text[i]) is None,
        forall|k: int| 0 <= k <= i ==> text[k] != PAD,
    ensures
        !accepted(text),
{
    lemma_data_reaches(text, i + 1);
    assert(data_part(text)[i] == text[i]);
}

} // verus!
