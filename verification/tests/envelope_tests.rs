//! The payload envelope: round trips, authenticity under bit flips, and
//! the nonce-swap protection that comes from signing the whole body.

use decoder::envelope::{
    decrypt_decoder_payload, encode_payload, payload_associated_data, signer_public_key,
};
use decoder::errors::DecoderError;

const SIGNER: [u8; 32] = [77u8; 32];
const SYM_KEY: [u8; 32] = [78u8; 32];

fn sample_payload(nonce: [u8; 24], plaintext: &[u8], ad: &[u8]) -> Vec<u8> {
    encode_payload(&SIGNER, &SYM_KEY, &nonce, plaintext, ad)
}

#[test]
fn envelope_round_trip() {
    let payload = sample_payload([1u8; 24], b"plain text body", b"tail");
    let public_key = signer_public_key(&SIGNER);
    let opened = decrypt_decoder_payload(&payload, 4, &SYM_KEY, &public_key)
        .expect("a freshly encoded payload opens");
    assert_eq!(opened, b"plain text body".to_vec());

    // the ciphertext region actually differs from the plaintext
    assert_ne!(&payload[104..104 + 15], b"plain text body".as_slice());
}

#[test]
fn envelope_authenticity_bit_flips() {
    // flipping any bit of an otherwise valid payload makes verification
    // fail, either at the signature or at the tag
    let payload = sample_payload([2u8; 24], b"frame!", b"xy");
    let public_key = signer_public_key(&SIGNER);

    for byte in 0..payload.len() {
        for bit in 0..8 {
            let mut tampered = payload.clone();
            tampered[byte] ^= 1u8 << bit;
            let r = decrypt_decoder_payload(&tampered, 2, &SYM_KEY, &public_key);
            assert_eq!(
                r.expect_err("a tampered payload must be rejected"),
                DecoderError::InvalidEncoderPayload
            );
        }
    }
}

#[test]
fn envelope_nonce_swap_rejected() {
    // two valid payloads under the same key; swapping their nonces into
    // each other's payloads must fail, because the signature covers the
    // nonce
    let first = sample_payload([10u8; 24], b"first body", b"ad");
    let second = sample_payload([20u8; 24], b"second body!", b"ad");
    let public_key = signer_public_key(&SIGNER);

    let mut first_swapped = first.clone();
    first_swapped[64..88].copy_from_slice(&second[64..88]);
    assert!(decrypt_decoder_payload(&first_swapped, 2, &SYM_KEY, &public_key).is_err());

    let mut second_swapped = second.clone();
    second_swapped[64..88].copy_from_slice(&first[64..88]);
    assert!(decrypt_decoder_payload(&second_swapped, 2, &SYM_KEY, &public_key).is_err());

    // while the untouched payloads still open
    assert!(decrypt_decoder_payload(&first, 2, &SYM_KEY, &public_key).is_ok());
    assert!(decrypt_decoder_payload(&second, 2, &SYM_KEY, &public_key).is_ok());
}

#[test]
fn envelope_wrong_keys_rejected() {
    let payload = sample_payload([3u8; 24], b"secret", b"");
    let public_key = signer_public_key(&SIGNER);

    let wrong_sym = [99u8; 32];
    assert!(decrypt_decoder_payload(&payload, 0, &wrong_sym, &public_key).is_err());

    let wrong_public = signer_public_key(&[98u8; 32]);
    assert!(decrypt_decoder_payload(&payload, 0, &SYM_KEY, &wrong_public).is_err());
}

#[test]
fn envelope_too_short() {
    let public_key = signer_public_key(&SIGNER);
    let r = decrypt_decoder_payload(&vec![0u8; 103], 0, &SYM_KEY, &public_key);
    assert_eq!(r.expect_err("shorter than the header"), DecoderError::InvalidEncoderPayload);

    let payload = sample_payload([4u8; 24], b"x", b"");
    // the same payload is too short once a longer tail is demanded
    let r = decrypt_decoder_payload(&payload, 200, &SYM_KEY, &public_key);
    assert_eq!(r.expect_err("tail longer than payload"), DecoderError::InvalidEncoderPayload);
}

#[test]
fn associated_data_is_payload_tail() {
    let payload = sample_payload([5u8; 24], b"body", b"TAIL");
    let tail = payload_associated_data(&payload, 4).expect("long enough");
    assert_eq!(tail, b"TAIL".to_vec());

    let err = payload_associated_data(&vec![0u8; 90], 4).expect_err("too short");
    assert_eq!(err, DecoderError::InvalidEncoderPayload);
}
