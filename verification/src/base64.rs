//! A permissive base64 decoder.
//!
//! The text is read as a stream of six-bit groups, most significant bit first,
//! and cut into bytes. The first `=` ends the data: nothing after it is looked
//! at, and bits that do not fill a byte are dropped without being inspected.
//! A character outside the alphabet that comes before any `=` is an error.

use vstd::prelude::*;
use vstd::string::StringSliceAdditionalSpecFns;

verus! {

/// The terminator: everything from the first `=` on is ignored.
pub const PAD: u8 = 61;

/// The six-bit value that an alphabet character stands for.
pub open spec fn sextet_of(c: u8) -> Option<u8> {
    if 65 <= c <= 90 {
        Some((c - 65) as u8)
    } else if 97 <= c <= 122 {
        Some((c - 71) as u8)
    } else if 48 <= c <= 57 {
        Some((c + 4) as u8)
    } else if c == 43 {
        Some(62u8)
    } else if c == 47 {
        Some(63u8)
    } else {
        None
    }
}

/// `sextet_of`, with 0 for a character outside the alphabet.
pub open spec fn value_of(c: u8) -> u8 {
    match sextet_of(c) {
        Some(v) => v,
        None => 0,
    }
}

/// How many characters stand before the first terminator; all of them if
/// there is none.
pub open spec fn data_len(text: Seq<u8>) -> nat
    decreases text.len(),
{
    if text.len() == 0 || text[0] == PAD {
        0
    } else {
        1 + data_len(text.drop_first())
    }
}

/// The characters that are decoded: those before the first terminator.
pub open spec fn data_part(text: Seq<u8>) -> Seq<u8> {
    text.take(data_len(text) as int)
}

/// Whether every character of `data` belongs to the alphabet.
pub open spec fn in_alphabet(data: Seq<u8>) -> bool {
    forall|i: int| 0 <= i < data.len() ==> (#[trigger] sextet_of(data[i])) is Some
}

/// Whether `text` decodes: no foreign character before the first terminator.
pub open spec fn accepted(text: Seq<u8>) -> bool {
    in_alphabet(data_part(text))
}

/// The six-bit values of a run of alphabet characters.
pub open spec fn sextets(data: Seq<u8>) -> Seq<u8> {
    Seq::new(data.len(), |i: int| value_of(data[i]))
}

/// Byte `j` of the bit stream formed by the six-bit values `s`.
///
/// Three bytes span four values: byte `3q` takes all of value `4q` and the top
/// two bits of the next, byte `3q + 1` the low four bits of value `4q + 1` and
/// the top four of the next, byte `3q + 2` the low two bits of value `4q + 2`
/// and all of value `4q + 3`.
pub open spec fn octet_at(s: Seq<u8>, j: int) -> u8 {
    let q = j / 3;
    if j % 3 == 0 {
        (s[4 * q] * 4 + s[4 * q + 1] / 16) as u8
    } else if j % 3 == 1 {
        ((s[4 * q + 1] % 16) * 16 + s[4 * q + 2] / 4) as u8
    } else {
        ((s[4 * q + 2] % 4) * 64 + s[4 * q + 3]) as u8
    }
}

/// The whole bytes held by the six-bit values `s`: `floor(6 * n / 8)` of them
/// for `n` values.
pub open spec fn octets(s: Seq<u8>) -> Seq<u8> {
    Seq::new((s.len() * 6 / 8) as nat, |j: int| octet_at(s, j))
}

/// The bytes that an accepted text decodes to.
pub open spec fn decoded(text: Seq<u8>) -> Seq<u8> {
    octets(sextets(data_part(text)))
}

/// The alphabet character that stands for a six-bit value.
pub open spec fn symbol_of(v: u8) -> u8 {
    if v < 26 {
        (v + 65) as u8
    } else if v < 52 {
        (v + 71) as u8
    } else if v < 62 {
        (v - 4) as u8
    } else if v == 62 {
        43u8
    } else {
        47u8
    }
}

/// Byte `i` of `bytes`, and 0 past their end.
pub open spec fn byte_or_zero(bytes: Seq<u8>, i: int) -> u8 {
    if 0 <= i < bytes.len() {
        bytes[i]
    } else {
        0
    }
}

/// Six-bit value `k` of the bit stream formed by `bytes`, which is filled up
/// with zero bits where its last value is incomplete.
pub open spec fn sextet_at(bytes: Seq<u8>, k: int) -> u8 {
    let q = k / 4;
    let b0 = byte_or_zero(bytes, 3 * q);
    let b1 = byte_or_zero(bytes, 3 * q + 1);
    let b2 = byte_or_zero(bytes, 3 * q + 2);
    if k % 4 == 0 {
        b0 / 4
    } else if k % 4 == 1 {
        ((b0 % 4) * 16 + b1 / 16) as u8
    } else if k % 4 == 2 {
        ((b1 % 16) * 4 + b2 / 64) as u8
    } else {
        b2 % 64
    }
}

/// The alphabet characters that spell `bytes`: `ceil(8 * m / 6)` of them for
/// `m` bytes.
pub open spec fn symbols(bytes: Seq<u8>) -> Seq<u8> {
    Seq::new(((8 * bytes.len() + 5) / 6) as nat, |k: int| symbol_of(sextet_at(bytes, k)))
}

/// The terminators that bring a text of `n` characters to a multiple of four.
pub open spec fn padding(n: nat) -> Seq<u8> {
    Seq::new(((4 - n % 4) % 4) as nat, |i: int| PAD)
}

/// The standard padded encoding of `bytes`.
pub open spec fn encoded(bytes: Seq<u8>) -> Seq<u8> {
    symbols(bytes) + padding(symbols(bytes).len())
}

/// The six-bit value `v` without its low `unused` bits.
pub open spec fn cleared(v: u8, unused: nat) -> u8 {
    if unused == 4 {
        (v / 16 * 16) as u8
    } else if unused == 2 {
        (v / 4 * 4) as u8
    } else {
        v
    }
}

/// The data of a text in the form in which the standard encoding would have
/// written the same bytes: a last character that holds no whole byte is
/// dropped, and the bits of the last character that belong to no byte are
/// cleared.
pub open spec fn tidied(data: Seq<u8>) -> Seq<u8> {
    let n = data.len() as int;
    if n % 4 == 1 {
        data.drop_last()
    } else if n % 4 == 2 {
        data.update(n - 1, symbol_of(cleared(value_of(data[n - 1]), 4)))
    } else if n % 4 == 3 {
        data.update(n - 1, symbol_of(cleared(value_of(data[n - 1]), 2)))
    } else {
        data
    }
}

/// What a text says, written the standard way: its tidied data and the
/// standard padding.
pub open spec fn normalized(text: Seq<u8>) -> Seq<u8> {
    let data = tidied(data_part(text));
    data + padding(data.len())
}

/// Whether a text is written the standard way: alphabet characters, no lone
/// last character, no stray bits in the last character, and after the data
/// the standard padding and nothing else.
pub open spec fn canonical(text: Seq<u8>) -> bool {
    let data = data_part(text);
    let n = data.len() as int;
    &&& in_alphabet(data)
    &&& n % 4 != 1
    &&& n % 4 == 2 ==> value_of(data[n - 1]) % 16 == 0
    &&& n % 4 == 3 ==> value_of(data[n - 1]) % 4 == 0
    &&& text == data + padding(data.len())
}

/// `data_len` is the one place that splits a text into data without a
/// terminator and a rest that is empty or starts with one.
pub proof fn lemma_data_len(text: Seq<u8>, n: int)
    requires
        0 <= n <= text.len(),
        forall|i: int| 0 <= i < n ==> text[i] != PAD,
        n < text.len() ==> text[n] == PAD,
    ensures
        data_len(text) == n,
    decreases text.len(),
{
    if n > 0 {
        let rest = text.drop_first();
        assert forall|i: int| 0 <= i < n - 1 implies rest[i] != PAD by {
            assert(rest[i] == text[i + 1]);
        }
        lemma_data_len(rest, n - 1);
    }
}

/// Decodes base64 text into bytes.
///
/// Fails exactly when a character outside the alphabet stands before the
/// first `=`. Otherwise the characters before the first `=` are decoded, and
/// six-bit groups left over at the end are dropped.
pub fn decode(input: &str) -> (result: Result<Vec<u8>, String>)
    ensures
        match result {
            Ok(bytes) => accepted(input.spec_bytes()) && bytes@ == decoded(input.spec_bytes()),
            Err(message) => !accepted(input.spec_bytes()) && message@
                == "Invalid base64 character"@,
        },
{
    let text = input.as_bytes();
    let n = text.len();
    let mut result: Vec<u8> = Vec::new();
    let mut buffer: u32 = 0;
    let mut bits: u32 = 0;
    let mut i: usize = 0;
    while i < n
        invariant
            n == text@.len(),
            text@ == input.spec_bytes(),
            0 <= i <= n,
            forall|k: int| 0 <= k < i ==> text@[k] != PAD,
            forall|k: int| 0 <= k < i ==> (#[trigger] sextet_of(text@[k])) is Some,
            bits == (6 * i) % 8,
            result@.len() == (6 * i) / 8,
            forall|j: int|
                0 <= j < result@.len() ==> result@[j] == #[trigger] octet_at(sextets(text@), j),
            i > 0 && bits == 6 ==> buffer % 64 == value_of(text@[i - 1]),
            i > 0 && bits == 4 ==> buffer % 16 == value_of(text@[i - 1]) % 16,
            i > 0 && bits == 2 ==> buffer % 4 == value_of(text@[i - 1]) % 4,
        decreases n - i,
    {
        let byte = text[i];
        let value: u8 = if 65 <= byte && byte <= 90 {
            byte - 65
        } else if 97 <= byte && byte <= 122 {
            byte - 71
        } else if 48 <= byte && byte <= 57 {
            byte + 4
        } else if byte == 43 {
            62
        } else if byte == 47 {
            63
        } else if byte == PAD {
            proof {
                lemma_data_len(text@, i as int);
                lemma_octets_of_prefix(text@, i as int, result@);
            }
            return Ok(result);
        } else {
            proof {
                lemma_data_reaches(text@, i as int + 1);
                assert(data_part(text@)[i as int] == text@[i as int]);
            }
            return Err("Invalid base64 character".to_owned());
        };
        assert(sextet_of(byte) == Some(value));
        assert(value < 64);
        let ghost before = buffer;
        buffer = (buffer << 6) | value as u32;
        bits = bits + 6;
        proof {
            lemma_shift_in(before, value);
        }
        if bits >= 8 {
            bits = bits - 8;
            let octet = #[verifier::truncate] ((buffer >> bits) as u8);
            proof {
                let s = sextets(text@);
                let j = result@.len() as int;
                assert(s[i as int] == value);
                assert(s[i as int - 1] == value_of(text@[i as int - 1]));
                assert(octet == octet_at(s, j));
            }
            result.push(octet);
        }
        i = i + 1;
    }
    proof {
        lemma_data_len(text@, n as int);
        lemma_octets_of_prefix(text@, n as int, result@);
    }
    Ok(result)
}

/// A text whose first `n` characters hold no terminator has at least `n`
/// characters of data.
pub proof fn lemma_data_reaches(text: Seq<u8>, n: int)
    requires
        0 <= n <= text.len(),
        forall|i: int| 0 <= i < n ==> text[i] != PAD,
    ensures
        data_len(text) >= n,
        data_len(text) <= text.len(),
    decreases text.len(),
{
    if text.len() > 0 && text[0] != PAD {
        let rest = text.drop_first();
        if n > 0 {
            assert forall|i: int| 0 <= i < n - 1 implies rest[i] != PAD by {
                assert(rest[i] == text[i + 1]);
            }
            lemma_data_reaches(rest, n - 1);
        } else {
            lemma_data_reaches(rest, 0);
        }
    }
}

/// Bytes computed from the values of a whole text are the bytes of its first
/// `n` characters, once there are `floor(6 * n / 8)` of them.
proof fn lemma_octets_of_prefix(text: Seq<u8>, n: int, out: Seq<u8>)
    requires
        0 <= n <= text.len(),
        out.len() == (6 * n) / 8,
        forall|j: int| 0 <= j < out.len() ==> out[j] == #[trigger] octet_at(sextets(text), j),
    ensures
        out == octets(sextets(text.take(n))),
{
    let whole = sextets(text);
    let part = sextets(text.take(n));
    assert forall|j: int| 0 <= j < out.len() implies out[j] == octet_at(part, j) by {
        let q = j / 3;
        assert(out[j] == octet_at(whole, j));
        assert(4 * q + 3 < n || (j % 3 != 2 && 4 * q + 2 < n) || (j % 3 == 0 && 4 * q + 1 < n));
        assert(part[4 * q] == whole[4 * q]);
        if j % 3 == 0 {
            assert(part[4 * q + 1] == whole[4 * q + 1]);
        } else if j % 3 == 1 {
            assert(part[4 * q + 1] == whole[4 * q + 1]);
            assert(part[4 * q + 2] == whole[4 * q + 2]);
        } else {
            assert(part[4 * q + 2] == whole[4 * q + 2]);
            assert(part[4 * q + 3] == whole[4 * q + 3]);
        }
    }
    assert(out =~= octets(part));
}

/// What shifting one six-bit value into the accumulator leaves in its low
/// bits, and which byte stands at each of the three offsets a byte can have.
proof fn lemma_shift_in(before: u32, value: u8)
    requires
        value < 64,
    ensures
        ({
            let after = (before << 6) | value as u32;
            &&& after % 64 == value
            &&& after % 16 == value % 16
            &&& after % 4 == value % 4
            &&& (after >> 4) as u8 == ((before % 64) * 4 + value / 16) as u8
            &&& (after >> 2) as u8 == ((before % 16) * 16 + value / 4) as u8
            &&& (after >> 0) as u8 == ((before % 4) * 64 + value) as u8
        }),
{
    let v = value as u32;
    let after = (before << 6) | v;
    assert(after % 64 == v && after % 16 == v % 16 && after % 4 == v % 4) by (bit_vector)
        requires
            after == (before << 6) | v,
            v < 64,
    ;
    assert((after >> 4) as u8 == ((before % 64) * 4 + v / 16) as u8) by (bit_vector)
        requires
            after == (before << 6) | v,
            v < 64,
    ;
    assert((after >> 2) as u8 == ((before % 16) * 16 + v / 4) as u8) by (bit_vector)
        requires
            after == (before << 6) | v,
            v < 64,
    ;
    assert((after >> 0) as u8 == ((before % 4) * 64 + v) as u8) by (bit_vector)
        requires
            after == (before << 6) | v,
            v < 64,
    ;
}

} // verus!
