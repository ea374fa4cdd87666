//! The payload cryptography envelope used uniformly by frames and
//! subscriptions:
//!
//! ```text
//! [ signature : 64 ][ aead nonce : 24 ][ aead tag : 16 ][ ciphertext : var ][ associated data ]
//! ```
//!
//! The Ed25519 signature covers everything after itself — nonce, tag,
//! ciphertext and associated data — so that an attacker who knows the
//! symmetric key still cannot substitute a different nonce.  The body is
//! encrypted with XChaCha20-Poly1305, its tag detached into the header and
//! the associated data authenticated but not encrypted.

use vstd::prelude::*;
use vstd::slice::{slice_subrange, slice_to_vec};

use crate::crypto::{
    ed25519_public_key, ed25519_public_key_of, ed25519_sign, ed25519_signature_of, ed25519_verifies,
    ed25519_verify, xchacha_decrypt_in_place, xchacha_encrypt_in_place, xchacha_open, xchacha_seal,
};
use crate::errors::DecoderError;

verus! {

/// Bytes of the Ed25519 signature at the front of every payload.
pub const SIGNATURE_LENGTH: usize = 64;

/// Total size of the payload header: signature, nonce and tag.
pub const PAYLOAD_HEADER_SIZE: usize = 104;

/// Where the AEAD nonce starts in a payload.
pub const NONCE_OFFSET: usize = 64;

/// Where the AEAD tag starts in a payload.
pub const TAG_OFFSET: usize = 88;

/// What a payload decrypts to: the plaintext exactly when the payload is
/// long enough, its signature verifies over everything after the signature,
/// and the AEAD opens the ciphertext under the trailing associated data.
pub open spec fn spec_open_payload(
    payload: Seq<u8>,
    ad_len: int,
    sym_key: Seq<u8>,
    public_key: Seq<u8>,
) -> Option<Seq<u8>> {
    let n = payload.len() as int;
    if n >= PAYLOAD_HEADER_SIZE + ad_len
        && ed25519_verifies(public_key, payload.skip(SIGNATURE_LENGTH as int), payload.subrange(0, SIGNATURE_LENGTH as int))
    {
        xchacha_open(
            sym_key,
            payload.subrange(NONCE_OFFSET as int, TAG_OFFSET as int),
            payload.skip(n - ad_len),
            payload.subrange(PAYLOAD_HEADER_SIZE as int, n - ad_len),
            payload.subrange(TAG_OFFSET as int, PAYLOAD_HEADER_SIZE as int),
        )
    } else {
        None
    }
}

/// Verifies and decrypts a payload the decoder receives.
///
/// This includes both satellite frames and subscription data.  Fails with
/// `InvalidEncoderPayload` when the payload is shorter than the header plus
/// the associated data, when the signature does not verify, or when the
/// AEAD rejects the ciphertext; returns the plaintext otherwise.
pub fn decrypt_decoder_payload(
    payload: &Vec<u8>,
    associated_data_size: usize,
    symmetric_key: &[u8; 32],
    public_key: &[u8; 32],
) -> (r: Result<Vec<u8>, DecoderError>)
    ensures
        match r {
            Ok(plaintext) => spec_open_payload(
                payload@,
                associated_data_size as int,
                symmetric_key@,
                public_key@,
            ) == Some(plaintext@),
            Err(e) => e == DecoderError::InvalidEncoderPayload && spec_open_payload(
                payload@,
                associated_data_size as int,
                symmetric_key@,
                public_key@,
            ) is None,
        },
{
    let n = payload.len();
    if n < PAYLOAD_HEADER_SIZE || n - PAYLOAD_HEADER_SIZE < associated_data_size {
        return Err(DecoderError::InvalidEncoderPayload);
    }

    // first verify signature
    // the signature covers the nonce and tag as well, otherwise an attacker
    // could alter the nonce and obtain a decode of a forged frame
    let signature = slice_subrange(payload.as_slice(), 0, SIGNATURE_LENGTH);
    let message_to_verify = slice_subrange(payload.as_slice(), SIGNATURE_LENGTH, n);
    if !ed25519_verify(public_key, message_to_verify, signature) {
        return Err(DecoderError::InvalidEncoderPayload);
    }

    // then decrypt the ciphertext under the associated data tail
    let nonce = slice_subrange(payload.as_slice(), NONCE_OFFSET, TAG_OFFSET);
    let tag = slice_subrange(payload.as_slice(), TAG_OFFSET, PAYLOAD_HEADER_SIZE);
    let associated_data = slice_subrange(payload.as_slice(), n - associated_data_size, n);
    let mut ciphertext = slice_to_vec(slice_subrange(
        payload.as_slice(),
        PAYLOAD_HEADER_SIZE,
        n - associated_data_size,
    ));

    if xchacha_decrypt_in_place(symmetric_key, nonce, associated_data, &mut ciphertext, tag) {
        Ok(ciphertext)
    } else {
        Err(DecoderError::InvalidEncoderPayload)
    }
}

/// Copies the trailing `size` associated-data bytes of a payload, present
/// exactly when the payload is long enough to carry a header and that tail.
pub fn payload_associated_data(payload: &Vec<u8>, size: usize) -> (r: Result<Vec<u8>, DecoderError>)
    ensures
        match r {
            Ok(ad) => {
                &&& payload@.len() >= PAYLOAD_HEADER_SIZE + size
                &&& ad@ == payload@.skip(payload@.len() - size as int)
            },
            Err(e) => {
                &&& e == DecoderError::InvalidEncoderPayload
                &&& payload@.len() < PAYLOAD_HEADER_SIZE + size
            },
        },
{
    let n = payload.len();
    if n < PAYLOAD_HEADER_SIZE || n - PAYLOAD_HEADER_SIZE < size {
        Err(DecoderError::InvalidEncoderPayload)
    } else {
        Ok(slice_to_vec(slice_subrange(payload.as_slice(), n - size, n)))
    }
}

/// The payload that [`encode_payload`] produces for the given keys, nonce,
/// plaintext and associated data.
pub open spec fn spec_encoded_payload(
    secret_key: Seq<u8>,
    sym_key: Seq<u8>,
    nonce: Seq<u8>,
    plaintext: Seq<u8>,
    associated_data: Seq<u8>,
) -> Seq<u8> {
    let sealed = xchacha_seal(sym_key, nonce, associated_data, plaintext);
    let body = nonce + sealed.skip(plaintext.len() as int) + sealed.take(plaintext.len() as int)
        + associated_data;
    ed25519_signature_of(secret_key, body) + body
}

/// Builds a signed, encrypted payload, as the broadcast authority does: the
/// plaintext is sealed under `sym_key` and `nonce` with the associated data
/// authenticated, and the whole of nonce, tag, ciphertext and associated
/// data is signed with `secret_key`.
pub fn encode_payload(
    secret_key: &[u8; 32],
    sym_key: &[u8; 32],
    nonce: &[u8],
    plaintext: &[u8],
    associated_data: &[u8],
) -> (out: Vec<u8>)
    requires
        nonce@.len() == 24,
        plaintext@.len() < 0x100000,
    ensures
        out@ == spec_encoded_payload(secret_key@, sym_key@, nonce@, plaintext@, associated_data@),
{
    let mut ciphertext = slice_to_vec(plaintext);
    let tag = xchacha_encrypt_in_place(sym_key, nonce, associated_data, &mut ciphertext);

    let mut body: Vec<u8> = Vec::new();
    body.extend_from_slice(nonce);
    body.extend_from_slice(tag.as_slice());
    body.extend_from_slice(ciphertext.as_slice());
    body.extend_from_slice(associated_data);

    let signature = ed25519_sign(secret_key, body.as_slice());

    let mut out: Vec<u8> = Vec::new();
    out.extend_from_slice(signature.as_slice());
    out.extend_from_slice(body.as_slice());
    proof {
        let sealed = xchacha_seal(sym_key@, nonce@, associated_data@, plaintext@);
        assert(body@ =~= nonce@ + sealed.skip(plaintext@.len() as int) + sealed.take(
            plaintext@.len() as int,
        ) + associated_data@);
        assert(out@ =~= spec_encoded_payload(
            secret_key@,
            sym_key@,
            nonce@,
            plaintext@,
            associated_data@,
        ));
    }
    out
}

/// The verifying key that belongs to a signing key, derived as the host
/// tooling does when a deployment is provisioned.
pub fn signer_public_key(secret_key: &[u8; 32]) -> (pk: [u8; 32])
    ensures
        pk@ == ed25519_public_key_of(secret_key@),
{
    ed25519_public_key(secret_key)
}

} // verus!
