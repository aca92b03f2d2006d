//! Tor v3 onion addresses: `base32(pubkey || checksum || version) + ".onion"`.

use vstd::prelude::*;
use vstd::string::*;
use crate::base32::{b32_char, b32_decode, b32_encode, bit, encode_lower, encoded_len, group, lemma_decode_encode};
use crate::keys::{sha3_256, sha3_256_of};

verus! {

/// The address version byte.
pub const ONION_VERSION: u8 = 3;

/// The ASCII bytes of `.onion checksum`, which open the checksum's input.
pub open spec fn checksum_tag() -> Seq<u8> {
    seq![46u8, 111, 110, 105, 111, 110, 32, 99, 104, 101, 99, 107, 115, 117, 109]
}

/// What the checksum hashes: the tag, the public key and the version.
pub open spec fn checksum_input(pk: Seq<u8>) -> Seq<u8> {
    checksum_tag() + pk + seq![3u8]
}

/// The two checksum bytes: the first two bytes of the SHA3-256 digest.
pub open spec fn onion_checksum(pk: Seq<u8>) -> Seq<u8> {
    seq![sha3_256_of(checksum_input(pk))[0], sha3_256_of(checksum_input(pk))[1]]
}

/// The 35 bytes that the name encodes.
pub open spec fn onion_payload(pk: Seq<u8>) -> Seq<u8> {
    pk + onion_checksum(pk) + seq![3u8]
}

/// The characters of `.onion`.
pub open spec fn onion_suffix() -> Seq<char> {
    seq!['.', 'o', 'n', 'i', 'o', 'n']
}

/// The 56-character name of the address of `pk`.
pub open spec fn onion_name_of(pk: Seq<u8>) -> Seq<char> {
    b32_encode(onion_payload(pk))
}

/// The full onion address of `pk`.
pub open spec fn onion_address_of(pk: Seq<u8>) -> Seq<char> {
    onion_name_of(pk) + onion_suffix()
}

/// Convert an Ed25519 public key to its Tor v3 onion address.
pub fn pubkey_to_onion(pubkey: &[u8; 32]) -> (r: String)
    ensures
        r@ == onion_address_of(pubkey@),
{
    let mut input: Vec<u8> = vec![46u8, 111, 110, 105, 111, 110, 32, 99, 104, 101, 99, 107, 115, 117, 109];
    let mut i: usize = 0;
    while i < 32
        invariant
            i <= 32,
            input@ == checksum_tag() + pubkey@.subrange(0, i as int),
        decreases 32 - i,
    {
        input.push(pubkey[i]);
        i = i + 1;
        assert(input@ =~= checksum_tag() + pubkey@.subrange(0, i as int));
    }
    input.push(ONION_VERSION);
    assert(pubkey@.subrange(0, 32) =~= pubkey@);
    assert(input@ =~= checksum_input(pubkey@));
    let digest = sha3_256(input.as_slice());
    let mut payload: Vec<u8> = Vec::new();
    let mut j: usize = 0;
    while j < 32
        invariant
            j <= 32,
            payload@ == pubkey@.subrange(0, j as int),
        decreases 32 - j,
    {
        payload.push(pubkey[j]);
        j = j + 1;
        assert(payload@ =~= pubkey@.subrange(0, j as int));
    }
    payload.push(digest[0]);
    payload.push(digest[1]);
    payload.push(ONION_VERSION);
    assert(payload@ =~= onion_payload(pubkey@)) by {
        assert(digest@ == sha3_256_of(checksum_input(pubkey@)));
    }
    let mut onion = encode_lower(payload.as_slice());
    onion.append(".onion");
    proof {
        reveal_strlit(".onion");
    }
    assert(".onion"@ =~= onion_suffix());
    onion
}

/// An onion address is 62 characters long, a 56-character name and `.onion`.
pub proof fn lemma_onion_address_shape(pk: Seq<u8>)
    requires
        pk.len() == 32,
    ensures
        onion_name_of(pk).len() == 56,
        onion_address_of(pk).len() == 62,
        onion_address_of(pk).subrange(56, 62) == onion_suffix(),
{
    assert(onion_payload(pk).len() == 35);
    assert(encoded_len(35) == 56);
    assert(onion_address_of(pk).subrange(56, 62) =~= onion_suffix());
}

/// The address is a function of the key's bytes: equal keys give equal
/// addresses, whichever call computed them.
pub proof fn lemma_onion_deterministic(a: Seq<u8>, b: Seq<u8>)
    requires
        a == b,
    ensures
        onion_address_of(a) == onion_address_of(b),
{
}

/// Decoding the 56-character name gives back the key, the two checksum bytes
/// (the first two bytes of SHA3-256 over `.onion checksum`, the key and the
/// version) and the version byte 3; the last character, which carries the
/// version's low bits, is `d`.
pub proof fn lemma_onion_name_decodes(pk: Seq<u8>)
    requires
        pk.len() == 32,
    ensures
        b32_decode(onion_name_of(pk)) == Some(
            pk + seq![
                sha3_256_of(checksum_input(pk))[0],
                sha3_256_of(checksum_input(pk))[1],
            ] + seq![3u8],
        ),
        onion_name_of(pk)[55] == 'd',
{
    let p = onion_payload(pk);
    lemma_decode_encode(p);
    assert(p.len() == 35);
    assert(p[34] == 3u8);
    assert(bit(p, 275) == 0) by {
        assert(275int / 8 == 34 && 275int % 8 == 3);
        assert((3u8 >> 4u8) & 1u8 == 0u8) by (bit_vector);
    }
    assert(bit(p, 276) == 0) by {
        assert(276int / 8 == 34 && 276int % 8 == 4);
        assert((3u8 >> 3u8) & 1u8 == 0u8) by (bit_vector);
    }
    assert(bit(p, 277) == 0) by {
        assert(277int / 8 == 34 && 277int % 8 == 5);
        assert((3u8 >> 2u8) & 1u8 == 0u8) by (bit_vector);
    }
    assert(bit(p, 278) == 1) by {
        assert(278int / 8 == 34 && 278int % 8 == 6);
        assert((3u8 >> 1u8) & 1u8 == 1u8) by (bit_vector);
    }
    assert(bit(p, 279) == 1) by {
        assert(279int / 8 == 34 && 279int % 8 == 7);
        assert((3u8 >> 0u8) & 1u8 == 1u8) by (bit_vector);
    }
    assert(group(p, 55) == 3) by {
        assert(((0u8 << 4u8) | (0u8 << 3u8) | (0u8 << 2u8) | (1u8 << 1u8) | 1u8) == 3u8)
            by (bit_vector);
    }
    assert(b32_char(3) == 'd');
}

} // verus!
