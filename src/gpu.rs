//! The byte-level prefix test that a GPU kernel applies to public keys.
//!
//! A prefix of `L` base32 characters fixes the first `5 * L` bits of the
//! public key. The kernel compares whole bytes below `last_byte_idx` and the
//! bits of `last_byte_mask` in the byte at `last_byte_idx`.

use vstd::prelude::*;
use vstd::string::*;
use crate::base32::{
    all_b32, b32_char, b32_decode, b32_value, bit, decode_lower, group, is_b32_char,
    lemma_char_value, lemma_group_bits, text_bit, text_byte,
};
use crate::onion::{onion_name_of, onion_payload};
use crate::pattern::starts_with;
use crate::pattern::MAX_PATTERN_LEN;

verus! {

/// The byte that keeps the top `r` bits of a byte (`r` below 8).
pub open spec fn top_bits_mask(r: nat) -> u8 {
    if r == 0 {
        0u8
    } else if r == 1 {
        0x80u8
    } else if r == 2 {
        0xC0u8
    } else if r == 3 {
        0xE0u8
    } else if r == 4 {
        0xF0u8
    } else if r == 5 {
        0xF8u8
    } else if r == 6 {
        0xFCu8
    } else {
        0xFEu8
    }
}

/// The index of the last byte that a prefix of `len` characters reaches.
pub open spec fn last_index_for(len: nat) -> nat {
    if (5 * len) % 8 > 0 || len == 0 {
        (5 * len / 8) as nat
    } else {
        (5 * len / 8 - 1) as nat
    }
}

/// The mask of the bits of that byte that the prefix fixes.
pub open spec fn last_mask_for(len: nat) -> u8 {
    if (5 * len) % 8 > 0 {
        top_bits_mask((5 * len) % 8)
    } else if len == 0 {
        0u8
    } else {
        0xFFu8
    }
}

/// The text that the prefix bytes decode: the pattern and `aa`, which adds
/// ten zero bits so that the last partial byte is whole.
pub open spec fn padded(p: Seq<char>) -> Seq<char> {
    p + seq!['a', 'a']
}

/// Whether the public key `pk` passes the byte test.
pub open spec fn byte_prefix_matches(bytes: Seq<u8>, idx: nat, mask: u8, pk: Seq<u8>) -> bool {
    &&& forall|j: int| 0 <= j < idx ==> #[trigger] pk[j] == bytes[j]
    &&& pk[idx as int] & mask == bytes[idx as int] & mask
}

/// A prefix pattern in the form a kernel tests.
#[derive(Debug, Clone)]
pub struct BytePrefix {
    pub bytes: Vec<u8>,
    pub last_byte_idx: usize,
    pub last_byte_mask: u8,
}

impl BytePrefix {
    /// The prefix form of the pattern `p`.
    pub open spec fn of_pattern(&self, p: Seq<char>) -> bool {
        &&& b32_decode(padded(p)) == Some(self.bytes@)
        &&& self.last_byte_idx == last_index_for(p.len())
        &&& self.last_byte_mask == last_mask_for(p.len())
    }

    /// The prefix form of `pattern`, which may be empty (it then accepts
    /// every key); `None` unless it is at most twelve base32 characters.
    pub fn from_pattern(pattern: &str) -> (r: Option<BytePrefix>)
        ensures
            r is Some <==> all_b32(pattern@) && pattern@.len() <= MAX_PATTERN_LEN,
            r matches Some(b) ==> b.of_pattern(pattern@) && b.last_byte_idx < b.bytes@.len()
                && b.last_byte_idx < 32,
    {
        let n = pattern.unicode_len();
        if n > MAX_PATTERN_LEN {
            return None;
        }
        let mut text = String::from_str(pattern);
        text.append("aa");
        proof {
            reveal_strlit("aa");
        }
        assert(text@ =~= padded(pattern@));
        assert(all_b32(padded(pattern@)) <==> all_b32(pattern@)) by {
            let q = padded(pattern@);
            if all_b32(pattern@) {
                assert forall|i: int| 0 <= i < q.len() implies #[trigger] is_b32_char(q[i]) by {
                    if i >= pattern@.len() {
                        assert(q[i] == 'a');
                    } else {
                        assert(q[i] == pattern@[i]);
                    }
                }
            }
            if all_b32(q) {
                assert forall|i: int| 0 <= i < pattern@.len() implies #[trigger] is_b32_char(
                    pattern@[i],
                ) by {
                    assert(q[i] == pattern@[i]);
                }
            }
        }
        let bytes = match decode_lower(text.as_str()) {
            Some(b) => b,
            None => {
                return None;
            },
        };
        let bits = 5 * n;
        let (idx, mask): (usize, u8) = if bits % 8 > 0 {
            let r = bits % 8;
            let m: u8 = if r == 1 {
                0x80
            } else if r == 2 {
                0xC0
            } else if r == 3 {
                0xE0
            } else if r == 4 {
                0xF0
            } else if r == 5 {
                0xF8
            } else if r == 6 {
                0xFC
            } else {
                0xFE
            };
            (bits / 8, m)
        } else if n == 0 {
            (0, 0)
        } else {
            (bits / 8 - 1, 0xFF)
        };
        Some(BytePrefix { bytes, last_byte_idx: idx, last_byte_mask: mask })
    }

    /// The test that the kernel applies to a public key.
    pub fn matches_pubkey(&self, pk: &[u8; 32]) -> (r: bool)
        requires
            self.last_byte_idx < self.bytes@.len(),
            self.last_byte_idx < 32,
        ensures
            r == byte_prefix_matches(
                self.bytes@,
                self.last_byte_idx as nat,
                self.last_byte_mask,
                pk@,
            ),
    {
        let mut j: usize = 0;
        while j < self.last_byte_idx
            invariant
                self.last_byte_idx < self.bytes@.len(),
                self.last_byte_idx < 32,
                j <= self.last_byte_idx,
                forall|k: int| 0 <= k < j ==> #[trigger] pk@[k] == self.bytes@[k],
            decreases self.last_byte_idx - j,
        {
            if pk[j] != self.bytes[j] {
                return false;
            }
            j = j + 1;
        }
        let i = self.last_byte_idx;
        pk[i] & self.last_byte_mask == self.bytes[i] & self.last_byte_mask
    }
}

/// The first `n` bits of `pk` are those that the characters of `q` spell.
pub open spec fn bits_agree(pk: Seq<u8>, q: Seq<char>, n: int) -> bool {
    forall|k: int| 0 <= k < n ==> #[trigger] bit(pk, k) == text_bit(q, k)
}

/// The byte that keeps the top `r` bits, for `r` up to 8.
spec fn keep_top(r: u8) -> u8 {
    ((0xFF00u16 >> (r as u16)) & 0xFFu16) as u8
}

proof fn lemma_masked_byte(x: u8, y: u8, r: u8)
    requires
        r <= 8,
    ensures
        (x & keep_top(r)) == (y & keep_top(r)) <==> ((r > 0 ==> (x >> 7u8) & 1u8 == (y >> 7u8)
            & 1u8) && (r > 1 ==> (x >> 6u8) & 1u8 == (y >> 6u8) & 1u8) && (r > 2 ==> (x >> 5u8)
            & 1u8 == (y >> 5u8) & 1u8) && (r > 3 ==> (x >> 4u8) & 1u8 == (y >> 4u8) & 1u8) && (r
            > 4 ==> (x >> 3u8) & 1u8 == (y >> 3u8) & 1u8) && (r > 5 ==> (x >> 2u8) & 1u8 == (y
            >> 2u8) & 1u8) && (r > 6 ==> (x >> 1u8) & 1u8 == (y >> 1u8) & 1u8) && (r > 7 ==> (x
            >> 0u8) & 1u8 == (y >> 0u8) & 1u8)),
        keep_top(8) == 0xFFu8,
        x & 0xFFu8 == x,
{
    assert((x & keep_top(r)) == (y & keep_top(r)) <==> ((r > 0 ==> (x >> 7u8) & 1u8 == (y >> 7u8)
        & 1u8) && (r > 1 ==> (x >> 6u8) & 1u8 == (y >> 6u8) & 1u8) && (r > 2 ==> (x >> 5u8) & 1u8
        == (y >> 5u8) & 1u8) && (r > 3 ==> (x >> 4u8) & 1u8 == (y >> 4u8) & 1u8) && (r > 4 ==> (x
        >> 3u8) & 1u8 == (y >> 3u8) & 1u8) && (r > 5 ==> (x >> 2u8) & 1u8 == (y >> 2u8) & 1u8)
        && (r > 6 ==> (x >> 1u8) & 1u8 == (y >> 1u8) & 1u8) && (r > 7 ==> (x >> 0u8) & 1u8 == (y
        >> 0u8) & 1u8))) by (bit_vector)
        requires
            r <= 8,
    ;
    assert(keep_top(8) == 0xFFu8) by (bit_vector);
    assert(x & 0xFFu8 == x) by (bit_vector);
}

proof fn lemma_masks()
    ensures
        keep_top(0) == 0u8,
        keep_top(1) == 0x80u8,
        keep_top(2) == 0xC0u8,
        keep_top(3) == 0xE0u8,
        keep_top(4) == 0xF0u8,
        keep_top(5) == 0xF8u8,
        keep_top(6) == 0xFCu8,
        keep_top(7) == 0xFEu8,
        keep_top(8) == 0xFFu8,
{
    assert(keep_top(0) == 0u8 && keep_top(1) == 0x80u8 && keep_top(2) == 0xC0u8 && keep_top(3)
        == 0xE0u8 && keep_top(4) == 0xF0u8 && keep_top(5) == 0xF8u8 && keep_top(6) == 0xFCu8
        && keep_top(7) == 0xFEu8 && keep_top(8) == 0xFFu8) by (bit_vector);
}

proof fn lemma_compose_bits(c0: u8, c1: u8, c2: u8, c3: u8, c4: u8, c5: u8, c6: u8, c7: u8)
    requires
        c0 <= 1,
        c1 <= 1,
        c2 <= 1,
        c3 <= 1,
        c4 <= 1,
        c5 <= 1,
        c6 <= 1,
        c7 <= 1,
    ensures
        ({
            let y = (c0 << 7u8) | (c1 << 6u8) | (c2 << 5u8) | (c3 << 4u8) | (c4 << 3u8) | (c5
                << 2u8) | (c6 << 1u8) | c7;
            &&& (y >> 7u8) & 1u8 == c0
            &&& (y >> 6u8) & 1u8 == c1
            &&& (y >> 5u8) & 1u8 == c2
            &&& (y >> 4u8) & 1u8 == c3
            &&& (y >> 3u8) & 1u8 == c4
            &&& (y >> 2u8) & 1u8 == c5
            &&& (y >> 1u8) & 1u8 == c6
            &&& (y >> 0u8) & 1u8 == c7
        }),
{
    assert({
        let y = (c0 << 7u8) | (c1 << 6u8) | (c2 << 5u8) | (c3 << 4u8) | (c4 << 3u8) | (c5 << 2u8)
            | (c6 << 1u8) | c7;
        &&& (y >> 7u8) & 1u8 == c0
        &&& (y >> 6u8) & 1u8 == c1
        &&& (y >> 5u8) & 1u8 == c2
        &&& (y >> 4u8) & 1u8 == c3
        &&& (y >> 3u8) & 1u8 == c4
        &&& (y >> 2u8) & 1u8 == c5
        &&& (y >> 1u8) & 1u8 == c6
        &&& (y >> 0u8) & 1u8 == c7
    }) by (bit_vector)
        requires
            c0 <= 1,
            c1 <= 1,
            c2 <= 1,
            c3 <= 1,
            c4 <= 1,
            c5 <= 1,
            c6 <= 1,
            c7 <= 1,
    ;
}

proof fn lemma_text_bit_is_bit(q: Seq<char>, k: int)
    ensures
        text_bit(q, k) <= 1,
{
    if 0 <= k < 5 * q.len() {
        let v = b32_value(q[k / 5]);
        let sh = (4 - k % 5) as u8;
        assert((v >> sh) & 1u8 <= 1u8) by (bit_vector);
    }
}

/// The bits of byte `j` of the decoded text are the text's bits.
proof fn lemma_text_byte_bits(q: Seq<char>, j: int)
    ensures
        forall|t: int|
            0 <= t < 8 ==> (text_byte(q, j) >> ((7 - t) as u8)) & 1u8 == #[trigger] text_bit(
                q,
                8 * j + t,
            ),
{
    lemma_text_bit_is_bit(q, 8 * j);
    lemma_text_bit_is_bit(q, 8 * j + 1);
    lemma_text_bit_is_bit(q, 8 * j + 2);
    lemma_text_bit_is_bit(q, 8 * j + 3);
    lemma_text_bit_is_bit(q, 8 * j + 4);
    lemma_text_bit_is_bit(q, 8 * j + 5);
    lemma_text_bit_is_bit(q, 8 * j + 6);
    lemma_text_bit_is_bit(q, 8 * j + 7);
    lemma_compose_bits(
        text_bit(q, 8 * j),
        text_bit(q, 8 * j + 1),
        text_bit(q, 8 * j + 2),
        text_bit(q, 8 * j + 3),
        text_bit(q, 8 * j + 4),
        text_bit(q, 8 * j + 5),
        text_bit(q, 8 * j + 6),
        text_bit(q, 8 * j + 7),
    );
    assert(text_bit(q, 8 * j + 0) == text_bit(q, 8 * j));
}

/// Two bytes agree on their top `r` bits exactly when the masked bytes do.
proof fn lemma_masked_bits(x: u8, y: u8, r: int)
    requires
        0 <= r <= 8,
    ensures
        (x & keep_top(r as u8)) == (y & keep_top(r as u8)) <==> forall|t: int|
            0 <= t < r ==> #[trigger] ((x >> ((7 - t) as u8)) & 1u8) == (y >> ((7 - t) as u8))
                & 1u8,
{
    lemma_masked_byte(x, y, r as u8);
    if (x & keep_top(r as u8)) == (y & keep_top(r as u8)) {
        assert forall|t: int| 0 <= t < r implies #[trigger] ((x >> ((7 - t) as u8)) & 1u8) == (y
            >> ((7 - t) as u8)) & 1u8 by {
            assert(t == 0 || t == 1 || t == 2 || t == 3 || t == 4 || t == 5 || t == 6 || t == 7);
        }
    }
    if forall|t: int|
        0 <= t < r ==> #[trigger] ((x >> ((7 - t) as u8)) & 1u8) == (y >> ((7 - t) as u8)) & 1u8 {
        assert(r > 0 ==> ((x >> ((7 - 0int) as u8)) & 1u8) == (y >> ((7 - 0int) as u8)) & 1u8);
        assert(r > 1 ==> ((x >> ((7 - 1int) as u8)) & 1u8) == (y >> ((7 - 1int) as u8)) & 1u8);
        assert(r > 2 ==> ((x >> ((7 - 2int) as u8)) & 1u8) == (y >> ((7 - 2int) as u8)) & 1u8);
        assert(r > 3 ==> ((x >> ((7 - 3int) as u8)) & 1u8) == (y >> ((7 - 3int) as u8)) & 1u8);
        assert(r > 4 ==> ((x >> ((7 - 4int) as u8)) & 1u8) == (y >> ((7 - 4int) as u8)) & 1u8);
        assert(r > 5 ==> ((x >> ((7 - 5int) as u8)) & 1u8) == (y >> ((7 - 5int) as u8)) & 1u8);
        assert(r > 6 ==> ((x >> ((7 - 6int) as u8)) & 1u8) == (y >> ((7 - 6int) as u8)) & 1u8);
        assert(r > 7 ==> ((x >> ((7 - 7int) as u8)) & 1u8) == (y >> ((7 - 7int) as u8)) & 1u8);
    }
}

proof fn lemma_byte_side(p: Seq<char>, pk: Seq<u8>, bytes: Seq<u8>)
    requires
        all_b32(p),
        p.len() <= 12,
        pk.len() == 32,
        b32_decode(padded(p)) == Some(bytes),
    ensures
        byte_prefix_matches(bytes, last_index_for(p.len()), last_mask_for(p.len()), pk)
            <==> bits_agree(pk, padded(p), 5 * p.len() as int),
{
    let q = padded(p);
    let n = p.len();
    let idx = last_index_for(n) as int;
    let r = 5 * n - 8 * idx;
    lemma_masks();
    assert(0 <= r <= 8);
    assert(last_mask_for(n) == keep_top(r as u8));
    assert(bytes.len() == 5 * q.len() / 8);
    assert(idx < bytes.len());
    assert(idx < 32);
    assert forall|j: int, t: int| 0 <= j < 32 && 0 <= t < 8 implies #[trigger] bit(pk, 8 * j + t)
        == (pk[j] >> ((7 - t) as u8)) & 1u8 by {
        assert((8 * j + t) / 8 == j);
        assert((8 * j + t) % 8 == t);
    }
    assert forall|j: int, t: int| 0 <= j < bytes.len() && 0 <= t < 8 implies (bytes[j] >> ((7
        - t) as u8)) & 1u8 == #[trigger] text_bit(q, 8 * j + t) by {
        lemma_text_byte_bits(q, j);
    }
    if byte_prefix_matches(bytes, idx as nat, last_mask_for(n), pk) {
        assert forall|k: int| 0 <= k < 5 * n implies #[trigger] bit(pk, k) == text_bit(q, k) by {
            let j = k / 8;
            let t = k % 8;
            assert(k == 8 * j + t);
            if j < idx {
                assert(pk[j] == bytes[j]);
                lemma_masked_byte(pk[j], bytes[j], 8);
                lemma_masked_bits(pk[j], bytes[j], 8);
                assert(((pk[j] >> ((7 - t) as u8)) & 1u8) == (bytes[j] >> ((7 - t) as u8)) & 1u8);
            } else {
                assert(j == idx);
                assert(t < r);
                lemma_masked_bits(pk[j], bytes[j], r);
                assert(((pk[j] >> ((7 - t) as u8)) & 1u8) == (bytes[j] >> ((7 - t) as u8)) & 1u8);
            }
        }
    }
    if bits_agree(pk, q, (5 * n) as int) {
        assert forall|j: int| 0 <= j < idx implies #[trigger] pk[j] == bytes[j] by {
            lemma_masked_byte(pk[j], bytes[j], 8);
            lemma_masked_byte(bytes[j], pk[j], 8);
            lemma_masked_bits(pk[j], bytes[j], 8);
            assert forall|t: int| 0 <= t < 8 implies #[trigger] ((pk[j] >> ((7 - t) as u8)) & 1u8)
                == (bytes[j] >> ((7 - t) as u8)) & 1u8 by {
                assert(bit(pk, 8 * j + t) == text_bit(q, 8 * j + t));
            }
        }
        lemma_masked_bits(pk[idx], bytes[idx], r);
        assert forall|t: int| 0 <= t < r implies #[trigger] ((pk[idx] >> ((7 - t) as u8)) & 1u8)
            == (bytes[idx] >> ((7 - t) as u8)) & 1u8 by {
            assert(bit(pk, 8 * idx + t) == text_bit(q, 8 * idx + t));
        }
    }
}

proof fn lemma_value_char(c: char)
    requires
        is_b32_char(c),
    ensures
        b32_value(c) < 32,
        b32_char(b32_value(c)) == c,
{
}

proof fn lemma_five_bits_eq(g: u8, v: u8)
    requires
        g < 32,
        v < 32,
    ensures
        g == v <==> ((g >> 4u8) & 1u8 == (v >> 4u8) & 1u8 && (g >> 3u8) & 1u8 == (v >> 3u8) & 1u8
            && (g >> 2u8) & 1u8 == (v >> 2u8) & 1u8 && (g >> 1u8) & 1u8 == (v >> 1u8) & 1u8 && (g
            >> 0u8) & 1u8 == (v >> 0u8) & 1u8),
{
    assert(g == v <==> ((g >> 4u8) & 1u8 == (v >> 4u8) & 1u8 && (g >> 3u8) & 1u8 == (v >> 3u8)
        & 1u8 && (g >> 2u8) & 1u8 == (v >> 2u8) & 1u8 && (g >> 1u8) & 1u8 == (v >> 1u8) & 1u8
        && (g >> 0u8) & 1u8 == (v >> 0u8) & 1u8)) by (bit_vector)
        requires
            g < 32,
            v < 32,
    ;
}

proof fn lemma_name_side(p: Seq<char>, pk: Seq<u8>)
    requires
        all_b32(p),
        p.len() <= 12,
        pk.len() == 32,
    ensures
        starts_with(onion_name_of(pk), p) <==> bits_agree(pk, padded(p), 5 * p.len() as int),
{
    let q = padded(p);
    let n = p.len() as int;
    let name = onion_name_of(pk);
    let payload = onion_payload(pk);
    assert(payload.len() == 35);
    assert(name.len() == 56);
    assert forall|k: int| 0 <= k < 256 implies #[trigger] bit(payload, k) == bit(pk, k) by {
        assert(payload[k / 8] == pk[k / 8]);
    }
    assert forall|i: int, m: int| 0 <= i < n && 0 <= m < 5 implies #[trigger] text_bit(
        q,
        5 * i + m,
    ) == (b32_value(p[i]) >> ((4 - m) as u8)) & 1u8 by {
        assert((5 * i + m) / 5 == i);
        assert((5 * i + m) % 5 == m);
        assert(q[i] == p[i]);
    }
    // For each character: the name's character equals the pattern's exactly
    // when the five key bits under it equal the pattern's five bits.
    assert forall|i: int| 0 <= i < n implies (name[i] == p[i] <==> forall|m: int|
        0 <= m < 5 ==> #[trigger] bit(pk, 5 * i + m) == text_bit(q, 5 * i + m)) by {
        let g = group(payload, i);
        let v = b32_value(p[i]);
        lemma_group_bits(payload, i);
        lemma_char_value(g);
        lemma_value_char(p[i]);
        assert(name[i] == b32_char(g));
        lemma_five_bits_eq(g, v);
        assert(bit(payload, 5 * i + 0) == bit(pk, 5 * i + 0));
        assert(bit(payload, 5 * i + 1) == bit(pk, 5 * i + 1));
        assert(bit(payload, 5 * i + 2) == bit(pk, 5 * i + 2));
        assert(bit(payload, 5 * i + 3) == bit(pk, 5 * i + 3));
        assert(bit(payload, 5 * i + 4) == bit(pk, 5 * i + 4));
        assert((g >> ((4 - 0int) as u8)) & 1u8 == bit(payload, 5 * i + 0));
        assert((g >> ((4 - 1int) as u8)) & 1u8 == bit(payload, 5 * i + 1));
        assert((g >> ((4 - 2int) as u8)) & 1u8 == bit(payload, 5 * i + 2));
        assert((g >> ((4 - 3int) as u8)) & 1u8 == bit(payload, 5 * i + 3));
        assert((g >> ((4 - 4int) as u8)) & 1u8 == bit(payload, 5 * i + 4));
        if name[i] == p[i] {
            assert(g == v);
        }
        if forall|m: int| 0 <= m < 5 ==> #[trigger] bit(pk, 5 * i + m) == text_bit(q, 5 * i + m) {
            assert(bit(pk, 5 * i + 0) == text_bit(q, 5 * i + 0));
            assert(bit(pk, 5 * i + 1) == text_bit(q, 5 * i + 1));
            assert(bit(pk, 5 * i + 2) == text_bit(q, 5 * i + 2));
            assert(bit(pk, 5 * i + 3) == text_bit(q, 5 * i + 3));
            assert(bit(pk, 5 * i + 4) == text_bit(q, 5 * i + 4));
            assert(g == v);
        }
    }
    if starts_with(name, p) {
        assert forall|k: int| 0 <= k < 5 * n implies #[trigger] bit(pk, k) == text_bit(q, k) by {
            let i = k / 5;
            let m = k % 5;
            assert(k == 5 * i + m);
            assert(name.subrange(0, n)[i] == name[i]);
        }
    }
    if bits_agree(pk, q, (5 * n) as int) {
        assert forall|i: int| 0 <= i < n implies name.subrange(0, n)[i] == p[i] by {
            assert forall|m: int| 0 <= m < 5 implies #[trigger] bit(pk, 5 * i + m) == text_bit(
                q,
                5 * i + m,
            ) by {}
        }
        assert(name.subrange(0, n) =~= p);
    }
}

/// The kernel's byte test of a prefix of at most twelve base32 characters
/// accepts a public key exactly when the key's onion name begins with that
/// prefix.
pub proof fn lemma_byte_prefix_agrees(p: Seq<char>, pk: Seq<u8>, b: BytePrefix)
    requires
        all_b32(p),
        p.len() <= MAX_PATTERN_LEN,
        pk.len() == 32,
        b.of_pattern(p),
    ensures
        byte_prefix_matches(b.bytes@, b.last_byte_idx as nat, b.last_byte_mask, pk) <==> starts_with(
            onion_name_of(pk),
            p,
        ),
{
    lemma_byte_side(p, pk, b.bytes@);
    lemma_name_side(p, pk);
}

} // verus!
