//! RFC 4648 base32 in its lowercase alphabet, without padding.
//!
//! The bit-level model below is what the encoder and decoder of the `base32`
//! crate compute; the two wrappers state it and make the calls.

use vstd::prelude::*;

verus! {

/// The character for the 5-bit value `v` (`a`..`z`, then `2`..`7`).
pub open spec fn b32_char(v: u8) -> char {
    if v < 26 {
        (97 + v) as u8 as char
    } else {
        (24 + v) as u8 as char
    }
}

/// Whether `c` belongs to the lowercase base32 alphabet.
pub open spec fn is_b32_char(c: char) -> bool {
    ('a' <= c && c <= 'z') || ('2' <= c && c <= '7')
}

/// The 5-bit value of an alphabet character.
pub open spec fn b32_value(c: char) -> u8 {
    if 'a' <= c && c <= 'z' {
        (c as u32 - 97) as u8
    } else {
        (c as u32 - 24) as u8
    }
}

/// Bit `k` of a byte string, most significant bit of each byte first;
/// zero past the end.
pub open spec fn bit(b: Seq<u8>, k: int) -> u8 {
    if 0 <= k < 8 * b.len() {
        (b[k / 8] >> ((7 - k % 8) as u8)) & 1u8
    } else {
        0u8
    }
}

/// The `i`-th group of five bits of `b`, as a number below 32.
pub open spec fn group(b: Seq<u8>, i: int) -> u8 {
    ((bit(b, 5 * i) << 4u8) | (bit(b, 5 * i + 1) << 3u8) | (bit(b, 5 * i + 2) << 2u8) | (bit(
        b,
        5 * i + 3,
    ) << 1u8) | bit(b, 5 * i + 4))
}

/// Number of characters that encode `n` bytes without padding.
pub open spec fn encoded_len(n: nat) -> nat {
    (8 * n + 4) / 5
}

/// The unpadded lowercase base32 text of `b`.
pub open spec fn b32_encode(b: Seq<u8>) -> Seq<char> {
    Seq::new(encoded_len(b.len()), |i: int| b32_char(group(b, i)))
}

/// Bit `k` of the bit string that the characters of `s` spell, five bits per
/// character; zero past the end.
pub open spec fn text_bit(s: Seq<char>, k: int) -> u8 {
    if 0 <= k < 5 * s.len() {
        (b32_value(s[k / 5]) >> ((4 - k % 5) as u8)) & 1u8
    } else {
        0u8
    }
}

/// Byte `j` of the bits that `s` spells.
pub open spec fn text_byte(s: Seq<char>, j: int) -> u8 {
    ((text_bit(s, 8 * j) << 7u8) | (text_bit(s, 8 * j + 1) << 6u8) | (text_bit(s, 8 * j + 2)
        << 5u8) | (text_bit(s, 8 * j + 3) << 4u8) | (text_bit(s, 8 * j + 4) << 3u8) | (text_bit(
        s,
        8 * j + 5,
    ) << 2u8) | (text_bit(s, 8 * j + 6) << 1u8) | text_bit(s, 8 * j + 7))
}

/// Whether every character of `s` is in the alphabet.
pub open spec fn all_b32(s: Seq<char>) -> bool {
    forall|i: int| 0 <= i < s.len() ==> #[trigger] is_b32_char(s[i])
}

/// The bytes that `s` decodes to: the whole bytes among its `5 * len` bits,
/// or `None` where a character is outside the alphabet.
pub open spec fn b32_decode(s: Seq<char>) -> Option<Seq<u8>> {
    if all_b32(s) {
        Some(Seq::new(5 * s.len() / 8, |j: int| text_byte(s, j)))
    } else {
        None
    }
}

/// Relies on `base32::encode` with `Rfc4648Lower { padding: false }`: each
/// group of five bits, most significant first, becomes one alphabet
/// character, the last group filled with zero bits.
#[verifier::external_body]
pub(crate) fn encode_lower(data: &[u8]) -> (r: String)
    ensures
        r@ == b32_encode(data@),
{
    ::base32::encode(::base32::Alphabet::Rfc4648Lower { padding: false }, data)
}

/// Relies on `base32::decode` with `Rfc4648Lower { padding: false }`: `None`
/// when a character is outside `a`..`z`, `2`..`7`; otherwise the
/// `5 * len / 8` whole bytes that the characters' bits spell.
#[verifier::external_body]
pub(crate) fn decode_lower(text: &str) -> (r: Option<Vec<u8>>)
    ensures
        match r {
            Some(v) => b32_decode(text@) == Some(v@),
            None => b32_decode(text@) is None,
        },
{
    ::base32::decode(::base32::Alphabet::Rfc4648Lower { padding: false }, text)
}

pub proof fn lemma_char_value(v: u8)
    requires
        v < 32,
    ensures
        is_b32_char(b32_char(v)),
        b32_value(b32_char(v)) == v,
{
}

proof fn lemma_bit_is_bit(b: Seq<u8>, k: int)
    ensures
        bit(b, k) <= 1,
{
    if 0 <= k < 8 * b.len() {
        let x = b[k / 8];
        let s = (7 - k % 8) as u8;
        assert((x >> s) & 1u8 <= 1u8) by (bit_vector);
    }
}

proof fn lemma_five_bits(b0: u8, b1: u8, b2: u8, b3: u8, b4: u8)
    requires
        b0 <= 1,
        b1 <= 1,
        b2 <= 1,
        b3 <= 1,
        b4 <= 1,
    ensures
        ((b0 << 4u8) | (b1 << 3u8) | (b2 << 2u8) | (b3 << 1u8) | b4) < 32,
        (((b0 << 4u8) | (b1 << 3u8) | (b2 << 2u8) | (b3 << 1u8) | b4) >> 4u8) & 1u8 == b0,
        (((b0 << 4u8) | (b1 << 3u8) | (b2 << 2u8) | (b3 << 1u8) | b4) >> 3u8) & 1u8 == b1,
        (((b0 << 4u8) | (b1 << 3u8) | (b2 << 2u8) | (b3 << 1u8) | b4) >> 2u8) & 1u8 == b2,
        (((b0 << 4u8) | (b1 << 3u8) | (b2 << 2u8) | (b3 << 1u8) | b4) >> 1u8) & 1u8 == b3,
        (((b0 << 4u8) | (b1 << 3u8) | (b2 << 2u8) | (b3 << 1u8) | b4) >> 0u8) & 1u8 == b4,
{
    assert(((b0 << 4u8) | (b1 << 3u8) | (b2 << 2u8) | (b3 << 1u8) | b4) < 32) by (bit_vector)
        requires
            b0 <= 1,
            b1 <= 1,
            b2 <= 1,
            b3 <= 1,
            b4 <= 1,
    ;
    assert((((b0 << 4u8) | (b1 << 3u8) | (b2 << 2u8) | (b3 << 1u8) | b4) >> 4u8) & 1u8 == b0
        && (((b0 << 4u8) | (b1 << 3u8) | (b2 << 2u8) | (b3 << 1u8) | b4) >> 3u8) & 1u8 == b1
        && (((b0 << 4u8) | (b1 << 3u8) | (b2 << 2u8) | (b3 << 1u8) | b4) >> 2u8) & 1u8 == b2
        && (((b0 << 4u8) | (b1 << 3u8) | (b2 << 2u8) | (b3 << 1u8) | b4) >> 1u8) & 1u8 == b3
        && (((b0 << 4u8) | (b1 << 3u8) | (b2 << 2u8) | (b3 << 1u8) | b4) >> 0u8) & 1u8 == b4)
        by (bit_vector)
        requires
            b0 <= 1,
            b1 <= 1,
            b2 <= 1,
            b3 <= 1,
            b4 <= 1,
    ;
}

/// Each group is below 32, and its bits are the bits of `b` that it covers.
pub proof fn lemma_group_bits(b: Seq<u8>, i: int)
    ensures
        group(b, i) < 32,
        forall|m: int|
            0 <= m < 5 ==> (group(b, i) >> ((4 - m) as u8)) & 1u8 == #[trigger] bit(b, 5 * i + m),
{
    lemma_bit_is_bit(b, 5 * i);
    lemma_bit_is_bit(b, 5 * i + 1);
    lemma_bit_is_bit(b, 5 * i + 2);
    lemma_bit_is_bit(b, 5 * i + 3);
    lemma_bit_is_bit(b, 5 * i + 4);
    lemma_five_bits(
        bit(b, 5 * i),
        bit(b, 5 * i + 1),
        bit(b, 5 * i + 2),
        bit(b, 5 * i + 3),
        bit(b, 5 * i + 4),
    );
}

proof fn lemma_byte_from_bits(x: u8)
    ensures
        ((((x >> 7u8) & 1u8) << 7u8) | (((x >> 6u8) & 1u8) << 6u8) | (((x >> 5u8) & 1u8) << 5u8)
            | (((x >> 4u8) & 1u8) << 4u8) | (((x >> 3u8) & 1u8) << 3u8) | (((x >> 2u8) & 1u8)
            << 2u8) | (((x >> 1u8) & 1u8) << 1u8) | ((x >> 0u8) & 1u8)) == x,
{
    assert(((((x >> 7u8) & 1u8) << 7u8) | (((x >> 6u8) & 1u8) << 6u8) | (((x >> 5u8) & 1u8)
        << 5u8) | (((x >> 4u8) & 1u8) << 4u8) | (((x >> 3u8) & 1u8) << 3u8) | (((x >> 2u8)
        & 1u8) << 2u8) | (((x >> 1u8) & 1u8) << 1u8) | ((x >> 0u8) & 1u8)) == x) by (bit_vector);
}

/// The text bits of an encoding are the bits of what was encoded.
pub proof fn lemma_encode_text_bit(b: Seq<u8>, k: int)
    requires
        0 <= k < 5 * encoded_len(b.len()),
    ensures
        text_bit(b32_encode(b), k) == bit(b, k),
{
    let e = b32_encode(b);
    let i = k / 5;
    let m = k % 5;
    lemma_group_bits(b, i);
    lemma_char_value(group(b, i));
    assert(e[i] == b32_char(group(b, i)));
    assert(5 * i + m == k);
    assert(bit(b, 5 * i + m) == (group(b, i) >> ((4 - m) as u8)) & 1u8);
}

/// Decoding the unpadded base32 text of any byte string gives it back.
pub proof fn lemma_decode_encode(b: Seq<u8>)
    ensures
        b32_decode(b32_encode(b)) == Some(b),
{
    let e = b32_encode(b);
    let n = b.len();
    assert forall|i: int| 0 <= i < e.len() implies #[trigger] is_b32_char(e[i]) by {
        lemma_group_bits(b, i);
        lemma_char_value(group(b, i));
    }
    assert(5 * encoded_len(n) / 8 == n);
    let d = Seq::new(5 * e.len() / 8, |j: int| text_byte(e, j));
    assert forall|j: int| 0 <= j < n implies d[j] == b[j] by {
        assert forall|t: int| 0 <= t < 8 implies #[trigger] text_bit(e, 8 * j + t) == (b[j] >> ((7
            - t) as u8)) & 1u8 by {
            lemma_encode_text_bit(b, 8 * j + t);
            assert((8 * j + t) / 8 == j);
            assert((8 * j + t) % 8 == t);
        }
        assert(text_bit(e, 8 * j + 0) == text_bit(e, 8 * j));
        lemma_byte_from_bits(b[j]);
    }
    assert(d =~= b);
}

} // verus!
