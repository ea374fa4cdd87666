//! Cryptographic primitives used by the decoder, each behind a thin wrapper
//! whose contract names the outside computation.
//!
//! Every primitive here is a pure function of its arguments: the same key and
//! message always give the same block, signature, tag or verdict.  The
//! wrappers therefore give each result a name (`chacha_block_of`,
//! `ed25519_verifies`, ...) that the rest of the library reasons with.

use vstd::prelude::*;

use chacha20poly1305::aead::generic_array::GenericArray;
use chacha20poly1305::{AeadInPlace, KeyInit, XChaCha20Poly1305};
use ed25519_dalek::{Signature, Signer, SigningKey, Verifier, VerifyingKey};
use rand_chacha::ChaCha20Rng;
use rand_core::{RngCore, SeedableRng};

verus! {

/// The 64-byte ChaCha20 keystream block obtained from a 32-byte seed with a
/// zero counter; a function of the seed alone.
pub uninterp spec fn chacha_block_of(key: Seq<u8>) -> Seq<u8>;

/// Whether `signature` is a valid Ed25519 signature on `message` under the
/// verifying key encoded by `public_key`; a function of the three alone.
pub uninterp spec fn ed25519_verifies(public_key: Seq<u8>, message: Seq<u8>, signature: Seq<u8>) -> bool;

/// The Ed25519 signature on `message` by the signing key `secret_key`
/// (Ed25519 signing is deterministic).
pub uninterp spec fn ed25519_signature_of(secret_key: Seq<u8>, message: Seq<u8>) -> Seq<u8>;

/// The Ed25519 verifying key derived from the signing key `secret_key`.
pub uninterp spec fn ed25519_public_key_of(secret_key: Seq<u8>) -> Seq<u8>;

/// What XChaCha20-Poly1305 produces when sealing `plaintext` under
/// `key`/`nonce` with associated data `aad`: the ciphertext (as long as the
/// plaintext) followed by the 16-byte Poly1305 tag.
pub uninterp spec fn xchacha_seal(key: Seq<u8>, nonce: Seq<u8>, aad: Seq<u8>, plaintext: Seq<u8>) -> Seq<u8>;

/// What XChaCha20-Poly1305 yields when opening `ciphertext` with the detached
/// `tag` under `key`/`nonce` and associated data `aad`: the plaintext when the
/// tag authenticates, `None` otherwise.
pub uninterp spec fn xchacha_open(
    key: Seq<u8>,
    nonce: Seq<u8>,
    aad: Seq<u8>,
    ciphertext: Seq<u8>,
    tag: Seq<u8>,
) -> Option<Seq<u8>>;

/// Computes 1 block of ChaCha20 with `key` as the secret input.
///
/// Relies on `rand_chacha::ChaCha20Rng`: a generator freshly seeded from
/// `key` fills the output with the keystream, a deterministic function of the
/// seed; the output is exactly 64 bytes long.
#[verifier::external_body]
pub fn compute_chacha_block(key: &[u8; 32]) -> (out: [u8; 64])
    ensures
        out@ == chacha_block_of(key@),
{
    let mut chacha = ChaCha20Rng::from_seed(*key);
    let mut output = [0u8; 64];
    chacha.fill_bytes(&mut output);
    output
}

/// Relies on `ed25519_dalek::VerifyingKey::{from_bytes, verify}`: returns
/// whether `public_key` encodes a valid key and `signature` verifies on
/// `message` under it, a deterministic check.
#[verifier::external_body]
pub(crate) fn ed25519_verify(public_key: &[u8; 32], message: &[u8], signature: &[u8]) -> (ok: bool)
    requires
        signature@.len() == 64,
    ensures
        ok == ed25519_verifies(public_key@, message@, signature@),
{
    let Ok(key) = VerifyingKey::from_bytes(public_key) else {
        return false;
    };
    let sig_bytes: [u8; 64] = signature.try_into().expect("signature is 64 bytes");
    key.verify(message, &Signature::from_bytes(&sig_bytes)).is_ok()
}

/// Relies on `ed25519_dalek::SigningKey::{from_bytes, sign}`: Ed25519 signing
/// is deterministic, so the signature is a function of the key and message.
#[verifier::external_body]
pub(crate) fn ed25519_sign(secret_key: &[u8; 32], message: &[u8]) -> (sig: [u8; 64])
    ensures
        sig@ == ed25519_signature_of(secret_key@, message@),
{
    let key = SigningKey::from_bytes(secret_key);
    key.sign(message).to_bytes()
}

/// Relies on `ed25519_dalek::SigningKey::verifying_key`: the verifying key is
/// a deterministic function of the signing key.
#[verifier::external_body]
pub(crate) fn ed25519_public_key(secret_key: &[u8; 32]) -> (pk: [u8; 32])
    ensures
        pk@ == ed25519_public_key_of(secret_key@),
{
    SigningKey::from_bytes(secret_key).verifying_key().to_bytes()
}

/// Relies on `chacha20poly1305::XChaCha20Poly1305::encrypt_in_place_detached`:
/// the buffer is replaced in place by the equally long ciphertext and the
/// 16-byte tag is returned; the call only fails on buffers of 2^38 bytes or
/// more, which the precondition rules out.
#[verifier::external_body]
pub(crate) fn xchacha_encrypt_in_place(
    key: &[u8; 32],
    nonce: &[u8],
    aad: &[u8],
    buffer: &mut Vec<u8>,
) -> (tag: [u8; 16])
    requires
        nonce@.len() == 24,
        old(buffer)@.len() < 0x100000,
    ensures
        final(buffer)@ == xchacha_seal(key@, nonce@, aad@, old(buffer)@).take(old(buffer)@.len() as int),
        tag@ == xchacha_seal(key@, nonce@, aad@, old(buffer)@).skip(old(buffer)@.len() as int),
        xchacha_seal(key@, nonce@, aad@, old(buffer)@).len() == old(buffer)@.len() + 16,
{
    let cipher = XChaCha20Poly1305::new(GenericArray::from_slice(key));
    let tag = cipher
        .encrypt_in_place_detached(GenericArray::from_slice(nonce), aad, buffer.as_mut_slice())
        .expect("buffer within length bound");
    tag.into()
}

/// Relies on `chacha20poly1305::XChaCha20Poly1305::decrypt_in_place_detached`:
/// the Poly1305 tag is checked first; only when it authenticates is the buffer
/// replaced in place by the equally long plaintext, otherwise it is left
/// untouched.
#[verifier::external_body]
pub(crate) fn xchacha_decrypt_in_place(
    key: &[u8; 32],
    nonce: &[u8],
    aad: &[u8],
    buffer: &mut Vec<u8>,
    tag: &[u8],
) -> (ok: bool)
    requires
        nonce@.len() == 24,
        tag@.len() == 16,
    ensures
        ok == (xchacha_open(key@, nonce@, aad@, old(buffer)@, tag@) is Some),
        ok ==> {
            &&& xchacha_open(key@, nonce@, aad@, old(buffer)@, tag@) == Some(final(buffer)@)
            &&& final(buffer)@.len() == old(buffer)@.len()
        },
        !ok ==> final(buffer)@ == old(buffer)@,
{
    let cipher = XChaCha20Poly1305::new(GenericArray::from_slice(key));
    cipher
        .decrypt_in_place_detached(
            GenericArray::from_slice(nonce),
            aad,
            buffer.as_mut_slice(),
            GenericArray::from_slice(tag),
        )
        .is_ok()
}

} // verus!
