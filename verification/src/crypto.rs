//! The signature primitive behind redemption: Ed25519, reached through
//! trusted wrappers.
//!
//! The scheme is deterministic (RFC 8032): both the public key and a
//! signature are functions of the 32-byte secret key (and, for a signature,
//! of the raw message bytes) alone, so each result is given a name that the
//! wrappers' contracts and the core's contracts share. What the names stand
//! for is never written out here; tests exercise the real primitive.

use vstd::prelude::*;
use ed25519_dalek::Signer;

verus! {

/// The Ed25519 public key derived from the 32-byte secret key `sk`.
pub uninterp spec fn pubkey_of(sk: Seq<u8>) -> Seq<u8>;

/// The Ed25519 signature over the message bytes `msg` under the 32-byte
/// secret key `sk`.
pub uninterp spec fn sig_of(sk: Seq<u8>, msg: Seq<u8>) -> Seq<u8>;

/// Relies on `ed25519_dalek::SigningKey::from_bytes` (which accepts any 32
/// bytes), `SigningKey::verifying_key` and `VerifyingKey::to_bytes`: the
/// public key is derived from the secret key alone and is 32 bytes long.
#[verifier::external_body]
pub(crate) fn ed25519_pubkey(sk: &[u8]) -> (pk: Vec<u8>)
    requires
        sk@.len() == 32,
    ensures
        pk@ == pubkey_of(sk@),
        pk@.len() == 32,
{
    let bytes: [u8; 32] = sk.try_into().unwrap();
    let key = ed25519_dalek::SigningKey::from_bytes(&bytes);
    key.verifying_key().to_bytes().to_vec()
}

/// Relies on `ed25519_dalek::SigningKey::from_bytes` and the `Signer` impl
/// of `SigningKey` (`sign`, which never fails for this key type): the
/// signature is deterministic in the secret key and the raw message bytes,
/// and is 64 bytes long.
#[verifier::external_body]
pub(crate) fn ed25519_sign(sk: &[u8], msg: &[u8]) -> (sig: Vec<u8>)
    requires
        sk@.len() == 32,
    ensures
        sig@ == sig_of(sk@, msg@),
        sig@.len() == 64,
{
    let bytes: [u8; 32] = sk.try_into().unwrap();
    let key = ed25519_dalek::SigningKey::from_bytes(&bytes);
    key.sign(msg).to_bytes().to_vec()
}

} // verus!
