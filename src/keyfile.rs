//! The contents of a Tor hidden-service directory for a found key.

use vstd::prelude::*;
use vstd::string::*;
use crate::keys::{sha512, sha512_of};
use crate::pattern::trim_onion;

verus! {

/// The 32-byte header of `hs_ed25519_public_key`:
/// `== ed25519v1-public: type0 ==` and three NUL bytes.
pub open spec fn public_key_tag() -> Seq<u8> {
    seq![
        61u8, 61, 32, 101, 100, 50, 53, 53, 49, 57, 118, 49, 45, 112, 117, 98, 108, 105, 99, 58,
        32, 116, 121, 112, 101, 48, 32, 61, 61, 0, 0, 0,
    ]
}

/// The 32-byte header of `hs_ed25519_secret_key`:
/// `== ed25519v1-secret: type0 ==` and three NUL bytes.
pub open spec fn secret_key_tag() -> Seq<u8> {
    seq![
        61u8, 61, 32, 101, 100, 50, 53, 53, 49, 57, 118, 49, 45, 115, 101, 99, 114, 101, 116, 58,
        32, 116, 121, 112, 101, 48, 32, 61, 61, 0, 0, 0,
    ]
}

/// The header of `hs_ed25519_public_key`.
pub fn public_key_prefix() -> (r: Vec<u8>)
    ensures
        r@ == public_key_tag(),
{
    let r: Vec<u8> = vec![
        61u8, 61, 32, 101, 100, 50, 53, 53, 49, 57, 118, 49, 45, 112, 117, 98, 108, 105, 99, 58,
        32, 116, 121, 112, 101, 48, 32, 61, 61, 0, 0, 0,
    ];
    assert(r@ =~= public_key_tag());
    r
}

/// The header of `hs_ed25519_secret_key`.
pub fn secret_key_prefix() -> (r: Vec<u8>)
    ensures
        r@ == secret_key_tag(),
{
    let r: Vec<u8> = vec![
        61u8, 61, 32, 101, 100, 50, 53, 53, 49, 57, 118, 49, 45, 115, 101, 99, 114, 101, 116, 58,
        32, 116, 121, 112, 101, 48, 32, 61, 61, 0, 0, 0,
    ];
    assert(r@ =~= secret_key_tag());
    r
}

/// Ed25519 clamping of the scalar half of a 64-byte digest.
pub open spec fn clamp(h: Seq<u8>) -> Seq<u8> {
    h.update(0, h[0] & 248u8).update(31, (h[31] & 127u8) | 64u8)
}

/// Tor's expanded secret key for `seed`: SHA-512 of the seed, clamped.
pub open spec fn expanded_secret_of(seed: Seq<u8>) -> Seq<u8> {
    clamp(sha512_of(seed))
}

/// The 64-byte expanded secret key that Tor stores for the secret key `seed`;
/// its scalar half is clamped.
pub fn expanded_secret_key(seed: &[u8; 32]) -> (r: [u8; 64])
    ensures
        r@ == expanded_secret_of(seed@),
        expanded_secret_of(seed@).len() == 64,
        r@[0] & 7u8 == 0,
        r@[31] & 0x80u8 == 0,
        r@[31] & 0x40u8 == 0x40u8,
{
    let mut h = sha512(seed.as_slice());
    let a = h[0];
    let b = h[31];
    h[0] = a & 248;
    h[31] = (b & 127) | 64;
    assert((a & 248u8) & 7u8 == 0u8 && ((b & 127u8) | 64u8) & 0x80u8 == 0u8 && ((b & 127u8)
        | 64u8) & 0x40u8 == 0x40u8) by (bit_vector);
    h
}

/// `a` followed by `b`.
fn concat_bytes(a: Vec<u8>, b: &[u8]) -> (r: Vec<u8>)
    ensures
        r@ == a@ + b@,
{
    let mut r = a;
    let ghost start = r@;
    let mut i: usize = 0;
    while i < b.len()
        invariant
            i <= b@.len(),
            r@ == start + b@.subrange(0, i as int),
        decreases b@.len() - i,
    {
        r.push(b[i]);
        i = i + 1;
        assert(r@ =~= start + b@.subrange(0, i as int));
    }
    assert(b@.subrange(0, b@.len() as int) =~= b@);
    r
}

/// The bytes of `hs_ed25519_public_key`: the header, then the public key.
pub fn public_key_file(public_key: &[u8; 32]) -> (r: Vec<u8>)
    ensures
        r@ == public_key_tag() + public_key@,
{
    concat_bytes(public_key_prefix(), public_key.as_slice())
}

/// The bytes of `hs_ed25519_secret_key`: the header, then the 64-byte
/// expanded secret key.
pub fn secret_key_file(expanded: &[u8; 64]) -> (r: Vec<u8>)
    ensures
        r@ == secret_key_tag() + expanded@,
{
    concat_bytes(secret_key_prefix(), expanded.as_slice())
}

/// The text of `hostname`: the address and a line end.
pub fn hostname_file(onion: &str) -> (r: String)
    ensures
        r@ == onion@ + seq!['\n'],
{
    let mut r = String::from_str(onion);
    r.append("\n");
    proof {
        reveal_strlit("\n");
    }
    assert("\n"@ =~= seq!['\n']);
    r
}

/// The files of one hidden-service directory, ready to be written under
/// `dir_name`, together with an empty `authorized_clients` directory.
pub struct HiddenServiceFiles {
    /// The directory's name: the address without `.onion`.
    pub dir_name: String,
    /// Contents of `hostname`.
    pub hostname: String,
    /// Contents of `hs_ed25519_public_key`.
    pub public_key: Vec<u8>,
    /// Contents of `hs_ed25519_secret_key`.
    pub secret_key: Vec<u8>,
}

/// The directory name for `onion`: the address less every trailing `.onion`.
pub fn onion_dir_name(onion: &str) -> (r: String)
    ensures
        r@ == trim_onion(onion@),
{
    let chars = crate::pattern::chars_of(onion);
    let end = crate::pattern::trimmed_len(&chars);
    String::from_str(onion.substring_char(0, end))
}

/// The directory for a key whose secret is `seed`, whose public key is
/// `public_key` and whose address is `onion`.
pub fn hidden_service_files(seed: &[u8; 32], public_key: &[u8; 32], onion: &str) -> (r:
    HiddenServiceFiles)
    ensures
        r.dir_name@ == trim_onion(onion@),
        r.hostname@ == onion@ + seq!['\n'],
        r.public_key@ == public_key_tag() + public_key@,
        r.secret_key@ == secret_key_tag() + expanded_secret_of(seed@),
        expanded_secret_of(seed@).len() == 64,
        r.secret_key@.len() == 96,
{
    let expanded = expanded_secret_key(seed);
    HiddenServiceFiles {
        dir_name: onion_dir_name(onion),
        hostname: hostname_file(onion),
        public_key: public_key_file(public_key),
        secret_key: secret_key_file(&expanded),
    }
}

} // verus!
