//! What the library takes from cryptographic crates: a remainder of a
//! 256-bit number, the BLAKE2b hash with a 32-byte digest, and Ed25519 keys
//! and signatures. Nothing in this file is proved. Each function states what
//! the crate behind it is relied on to do.

use vstd::prelude::*;

verus! {

/// The number that the bytes spell, most significant byte first.
pub open spec fn big_endian(bytes: Seq<u8>) -> nat
    decreases bytes.len(),
{
    if bytes.len() == 0 {
        0
    } else {
        big_endian(bytes.drop_last()) * 256 + bytes.last() as nat
    }
}

/// The BLAKE2b digest of 32 bytes, without key, of `data`.
pub uninterp spec fn blake2_256(data: Seq<u8>) -> Seq<u8>;

/// The Ed25519 public key that belongs to the 32-byte secret key `secret`.
pub uninterp spec fn ed25519_public_key(secret: Seq<u8>) -> Seq<u8>;

/// The Ed25519 signature of `message` under the 32-byte secret key `secret`.
pub uninterp spec fn ed25519_signature(secret: Seq<u8>, message: Seq<u8>) -> Seq<u8>;

/// `U256 % U256` of `primitive_types`, on a number read with
/// `U256::from_big_endian` and a divisor made with `U256::from`: the
/// remainder of the 256-bit number that `seed` spells by `len`. The division
/// panics on a zero divisor, which `requires` leaves out. The remainder is
/// below `len`, so its low 64 bits are all of it.
#[verifier::external_body]
pub(crate) fn seed_modulo(seed: &[u8; 32], len: u64) -> (r: u64)
    requires
        len > 0,
    ensures
        r == big_endian(seed@) % (len as nat),
{
    (primitive_types::U256::from_big_endian(&seed[..]) % primitive_types::U256::from(len)).low_u64()
}

/// `blake2b(32, &[], data)` of `blake2_rfc`: the unkeyed BLAKE2b digest of 32
/// bytes. The digest depends on `data` alone.
#[verifier::external_body]
pub(crate) fn blake2_256_of(data: &[u8]) -> (r: [u8; 32])
    ensures
        r@ == blake2_256(data@),
{
    let digest = blake2_rfc::blake2b::blake2b(32, &[], data);
    let mut out: [u8; 32] = [0u8; 32];
    out.copy_from_slice(digest.as_bytes());
    out
}

/// `SigningKey::verifying_key` of `ed25519_dalek`, on the key that
/// `SigningKey::from_bytes` makes of `secret`: the public key, which depends
/// on `secret` alone.
#[verifier::external_body]
pub(crate) fn public_key_of(secret: &[u8; 32]) -> (r: [u8; 32])
    ensures
        r@ == ed25519_public_key(secret@),
{
    ed25519_dalek::SigningKey::from_bytes(secret).verifying_key().to_bytes()
}

/// `Signer::sign` of `ed25519_dalek`, on the key that `SigningKey::from_bytes`
/// makes of `secret`: the signature of `message`. Ed25519 draws no random
/// number, so the signature depends on `secret` and `message` alone.
#[verifier::external_body]
pub(crate) fn signature_of(secret: &[u8; 32], message: &[u8]) -> (r: [u8; 64])
    ensures
        r@ == ed25519_signature(secret@, message@),
{
    let key = ed25519_dalek::SigningKey::from_bytes(secret);
    ed25519_dalek::Signer::sign(&key, message).to_bytes()
}

} // verus!
