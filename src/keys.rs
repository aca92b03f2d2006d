//! Hashes, key derivation and randomness, each from the crate that the
//! search relies on for it.

use vstd::prelude::*;
use sha2::Digest as Sha2Digest;
use sha3::Digest as Sha3Digest;

verus! {

/// The SHA3-256 digest of `data`.
pub uninterp spec fn sha3_256_of(data: Seq<u8>) -> Seq<u8>;

/// The SHA-512 digest of `data`.
pub uninterp spec fn sha512_of(data: Seq<u8>) -> Seq<u8>;

/// The Ed25519 public key of the 32-byte secret key `seed`.
pub uninterp spec fn ed25519_public_of(seed: Seq<u8>) -> Seq<u8>;

/// The compressed Edwards point `s * B`, for `s` the 32 bytes read as a
/// scalar modulo the group order and `B` the Ed25519 base point.
pub uninterp spec fn scalar_base_point_of(scalar: Seq<u8>) -> Seq<u8>;

/// Relies on `sha3::Sha3_256::digest`: 32 bytes that depend on `data` alone.
#[verifier::external_body]
pub(crate) fn sha3_256(data: &[u8]) -> (r: [u8; 32])
    ensures
        r@ == sha3_256_of(data@),
{
    <sha3::Sha3_256 as Sha3Digest>::digest(data).into()
}

/// Relies on `sha2::Sha512::digest`: 64 bytes that depend on `data` alone.
#[verifier::external_body]
pub(crate) fn sha512(data: &[u8]) -> (r: [u8; 64])
    ensures
        r@ == sha512_of(data@),
{
    <sha2::Sha512 as Sha2Digest>::digest(data).into()
}

/// Relies on `ed25519_dalek::SigningKey::from_bytes`, `verifying_key` and
/// `VerifyingKey::to_bytes`: the public key of a secret key.
#[verifier::external_body]
pub(crate) fn ed25519_public_key(seed: &[u8; 32]) -> (r: [u8; 32])
    ensures
        r@ == ed25519_public_of(seed@),
{
    ed25519_dalek::SigningKey::from_bytes(seed).verifying_key().to_bytes()
}

/// Relies on `curve25519_dalek::Scalar::from_bytes_mod_order`, the product with
/// `ED25519_BASEPOINT_POINT` and `compress`: the public point of a scalar.
#[verifier::external_body]
pub(crate) fn scalar_base_point(scalar: &[u8; 32]) -> (r: [u8; 32])
    ensures
        r@ == scalar_base_point_of(scalar@),
{
    let s = curve25519_dalek::Scalar::from_bytes_mod_order(*scalar);
    (s * curve25519_dalek::constants::ED25519_BASEPOINT_POINT).compress().to_bytes()
}

/// Relies on `rand::rngs::OsRng::try_fill_bytes`: 32 bytes from the
/// operating system's secure generator, or `None` when it fails; nothing is
/// known of their value.
#[verifier::external_body]
pub(crate) fn random_seed() -> (r: Option<[u8; 32]>) {
    let mut seed = [0u8; 32];
    rand::RngCore::try_fill_bytes(&mut rand::rngs::OsRng, &mut seed).ok().map(|_| seed)
}

} // verus!
