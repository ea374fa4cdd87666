//! End-to-end scenarios: subscribe, list, decode, power cycles and the
//! store's capacity and replacement policy, driven with real signatures
//! and real encryption.

use decoder::context::{DecoderContext, DecoderParams, MAX_SUBSCRIPTIONS};
use decoder::decode::decode;
use decoder::envelope::{encode_payload, signer_public_key};
use decoder::errors::{DecoderContextError, DecoderError};
use decoder::flash::FlashEntry;
use decoder::keytree::{derive_from_subtree, KeySubtree};
use decoder::list_channels;
use decoder::subscribe::{encode_subscription_plaintext, subscribe};

const DECODER_ID: u32 = 0xdead1234;
const EMERGENCY_CHANNEL_ID: u32 = 0;
const SUBSCRIPTION_SIGNER: [u8; 32] = [7u8; 32];
const SUBSCRIPTION_ENC_KEY: [u8; 32] = [9u8; 32];
const CHANNEL0_SIGNER: [u8; 32] = [21u8; 32];
const CHANNEL0_ENC_KEY: [u8; 32] = [23u8; 32];

fn params() -> DecoderParams {
    DecoderParams {
        decoder_id: DECODER_ID,
        subscription_enc_key: SUBSCRIPTION_ENC_KEY,
        subscription_public_key: signer_public_key(&SUBSCRIPTION_SIGNER),
        channel0_enc_key: CHANNEL0_ENC_KEY,
        channel0_public_key: signer_public_key(&CHANNEL0_SIGNER),
        emergency_channel_id: EMERGENCY_CHANNEL_ID,
    }
}

fn empty_pages() -> Vec<FlashEntry> {
    let mut pages = Vec::new();
    for _ in 0..MAX_SUBSCRIPTIONS {
        pages.push(FlashEntry::new_erased());
    }
    pages
}

fn fresh_context() -> DecoderContext {
    DecoderContext::new(params(), empty_pages())
}

/// The signing key used for frames on a channel, one per channel id.
fn channel_signer(channel_id: u32) -> [u8; 32] {
    let mut key = [33u8; 32];
    key[0] = channel_id as u8;
    key
}

/// A subscription payload for channel 3 covering [100, 199]: three
/// subtrees of 64, 32 and 4 leaves.
fn channel3_subtrees() -> Vec<KeySubtree> {
    vec![
        KeySubtree { lowest_timestamp: 100, highest_timestamp: 163, key: [41u8; 32] },
        KeySubtree { lowest_timestamp: 164, highest_timestamp: 195, key: [42u8; 32] },
        KeySubtree { lowest_timestamp: 196, highest_timestamp: 199, key: [43u8; 32] },
    ]
}

fn subscription_payload(
    channel_id: u32,
    start_time: u64,
    depths: &[u8],
    node_keys: &Vec<[u8; 32]>,
    decoder_id: u32,
) -> Vec<u8> {
    let public_key = signer_public_key(&channel_signer(channel_id));
    let plaintext =
        encode_subscription_plaintext(&public_key, start_time, channel_id, depths, node_keys);
    let nonce = [5u8; 24];
    let ad = decoder_id.to_le_bytes();
    encode_payload(&SUBSCRIPTION_SIGNER, &SUBSCRIPTION_ENC_KEY, &nonce, &plaintext, &ad)
}

fn subscribe_channel3(ctx: &mut DecoderContext) {
    let subtrees = channel3_subtrees();
    let depths = [58u8, 59, 62];
    let keys = vec![subtrees[0].key, subtrees[1].key, subtrees[2].key];
    let payload = subscription_payload(3, 100, &depths, &keys, DECODER_ID);
    subscribe(ctx, &payload).expect("subscription should be accepted");
}

/// The frame payload for `channel_id` at `timestamp`, encrypted under the
/// per-timestamp leaf key below `subtree` and signed with the channel's
/// signing key.
fn frame_payload_from_subtree(
    channel_id: u32,
    timestamp: u64,
    subtree: &KeySubtree,
    data: &[u8],
    nonce: [u8; 24],
) -> Vec<u8> {
    let mut scratch = Vec::new();
    let leaf_key = derive_from_subtree(subtree, timestamp, &mut scratch);
    let mut plaintext = vec![0u8; 65];
    plaintext[0] = data.len() as u8;
    plaintext[1..1 + data.len()].copy_from_slice(data);
    let mut ad = Vec::new();
    ad.extend_from_slice(&timestamp.to_le_bytes());
    ad.push(channel_id as u8);
    encode_payload(&channel_signer(channel_id), &leaf_key, &nonce, &plaintext, &ad)
}

/// An emergency-channel frame, under the compiled-in keys.
fn emergency_frame(timestamp: u64, data: &[u8]) -> Vec<u8> {
    let mut plaintext = vec![0u8; 65];
    plaintext[0] = data.len() as u8;
    plaintext[1..1 + data.len()].copy_from_slice(data);
    let mut ad = Vec::new();
    ad.extend_from_slice(&timestamp.to_le_bytes());
    ad.push(EMERGENCY_CHANNEL_ID as u8);
    encode_payload(&CHANNEL0_SIGNER, &CHANNEL0_ENC_KEY, &[3u8; 24], &plaintext, &ad)
}

/// The expected list-response record for one channel.
fn list_record(channel_id: u32, start: u64, end: u64) -> Vec<u8> {
    let mut out = Vec::new();
    out.extend_from_slice(&channel_id.to_le_bytes());
    out.extend_from_slice(&start.to_le_bytes());
    out.extend_from_slice(&end.to_le_bytes());
    out
}

#[test]
fn subscribe_then_list() {
    let mut ctx = fresh_context();
    assert_eq!(list_channels(&ctx), 0u32.to_le_bytes().to_vec());

    subscribe_channel3(&mut ctx);

    let mut expected = 1u32.to_le_bytes().to_vec();
    expected.extend_from_slice(&list_record(3, 100, 199));
    assert_eq!(list_channels(&ctx), expected);
}

#[test]
fn decode_in_range() {
    let mut ctx = fresh_context();
    subscribe_channel3(&mut ctx);

    let frame = frame_payload_from_subtree(3, 150, &channel3_subtrees()[0], b"HELLO", [11u8; 24]);
    let decoded = decode(&mut ctx, &frame).expect("decode should succeed");
    assert_eq!(decoded, b"HELLO".to_vec());
    assert_eq!(ctx.last_decoded_timestamp, Some(150));
}

#[test]
fn decode_out_of_range() {
    let mut ctx = fresh_context();
    subscribe_channel3(&mut ctx);

    // timestamp 250 is outside [100, 199]; no subtree can be picked, so the
    // payload is encrypted under an arbitrary key
    let outside = KeySubtree { lowest_timestamp: 192, highest_timestamp: 255, key: [50u8; 32] };
    let frame = frame_payload_from_subtree(3, 250, &outside, b"HELLO", [12u8; 24]);
    let err = decode(&mut ctx, &frame).expect_err("timestamp outside the subscription");
    assert_eq!(err, DecoderError::InvalidTimestamp);
    assert!(err.message().contains("timestamp"));
    assert_eq!(ctx.last_decoded_timestamp, None);
}

#[test]
fn decode_non_monotonic() {
    let mut ctx = fresh_context();
    subscribe_channel3(&mut ctx);

    let frame = frame_payload_from_subtree(3, 150, &channel3_subtrees()[0], b"HELLO", [11u8; 24]);
    decode(&mut ctx, &frame).expect("first decode should succeed");

    let replay = frame_payload_from_subtree(3, 150, &channel3_subtrees()[0], b"HELLO", [13u8; 24]);
    let err = decode(&mut ctx, &replay).expect_err("replayed timestamp");
    assert_eq!(err, DecoderError::NonMonotonicTimestamp);
    assert!(err.message().contains("non-monotonic"));
    assert_eq!(ctx.last_decoded_timestamp, Some(150));
}

#[test]
fn subscription_capacity() {
    let mut ctx = fresh_context();

    // eight distinct channels fill the store
    for channel in 1..=8u32 {
        let keys = vec![[channel as u8; 32]];
        let payload = subscription_payload(channel, 0, &[0u8], &keys, DECODER_ID);
        subscribe(&mut ctx, &payload).expect("within capacity");
    }

    // a ninth distinct channel is refused
    let keys = vec![[9u8; 32]];
    let payload = subscription_payload(9, 0, &[0u8], &keys, DECODER_ID);
    let err = subscribe(&mut ctx, &payload).expect_err("store is full");
    assert_eq!(
        err,
        DecoderError::DecoderContextError(DecoderContextError::TooManySubscriptions)
    );
    assert!(err.message().contains("Too many subscriptions"));
}

#[test]
fn subscription_replace() {
    let mut ctx = fresh_context();
    for channel in 1..=8u32 {
        let keys = vec![[channel as u8; 32]];
        let payload = subscription_payload(channel, 0, &[0u8], &keys, DECODER_ID);
        subscribe(&mut ctx, &payload).expect("within capacity");
    }

    // re-subscribing channel 5 replaces its slot with the new interval
    let keys = vec![[55u8; 32]];
    let payload = subscription_payload(5, 1024, &[54u8], &keys, DECODER_ID);
    subscribe(&mut ctx, &payload).expect("replacement always fits");

    let response = list_channels(&ctx);
    let mut expected = 8u32.to_le_bytes().to_vec();
    for channel in 1..=8u32 {
        if channel == 5 {
            expected.extend_from_slice(&list_record(5, 1024, 1024 + 1023));
        } else {
            expected.extend_from_slice(&list_record(channel, 0, u64::MAX));
        }
    }
    assert_eq!(response, expected);
}

#[test]
fn emergency_decode_across_power_cycles() {
    let mut ctx = fresh_context();
    subscribe_channel3(&mut ctx);

    // power-cycle: RAM is cleared, flash pages survive
    let pages: Vec<FlashEntry> =
        ctx.subscriptions.iter().map(|s| FlashEntry::from_page(s.flash_entry.page_image())).collect();
    let mut ctx = DecoderContext::new(params(), pages);
    assert_eq!(ctx.last_decoded_timestamp, None);

    let decoded = decode(&mut ctx, &emergency_frame(1, b"ALERT")).expect("no subscription needed");
    assert_eq!(decoded, b"ALERT".to_vec());

    // another power cycle resets the watermark, so timestamp 0 decodes
    let pages: Vec<FlashEntry> =
        ctx.subscriptions.iter().map(|s| FlashEntry::from_page(s.flash_entry.page_image())).collect();
    let mut ctx = DecoderContext::new(params(), pages);
    let decoded = decode(&mut ctx, &emergency_frame(0, b"ZERO")).expect("watermark was reset");
    assert_eq!(decoded, b"ZERO".to_vec());

    // and the subscription for channel 3 still lists after both cycles
    let mut expected = 1u32.to_le_bytes().to_vec();
    expected.extend_from_slice(&list_record(3, 100, 199));
    assert_eq!(list_channels(&ctx), expected);

    // but a second frame at timestamp 0 is non-monotonic
    let err = decode(&mut ctx, &emergency_frame(0, b"AGAIN")).expect_err("watermark now set");
    assert_eq!(err, DecoderError::NonMonotonicTimestamp);
}

#[test]
fn emergency_decode_unaffected_by_updates() {
    // decoding emergency frames works with an empty store and is unchanged
    // by subscriptions to other channels
    let mut ctx = fresh_context();
    let decoded = decode(&mut ctx, &emergency_frame(7, b"E1")).expect("empty store suffices");
    assert_eq!(decoded, b"E1".to_vec());

    subscribe_channel3(&mut ctx);
    let decoded = decode(&mut ctx, &emergency_frame(9, b"E2")).expect("store update is irrelevant");
    assert_eq!(decoded, b"E2".to_vec());
}

#[test]
fn subscription_wrong_decoder_id() {
    let mut ctx = fresh_context();
    let keys = vec![[1u8; 32]];
    let payload = subscription_payload(4, 0, &[0u8], &keys, DECODER_ID ^ 1);
    let err = subscribe(&mut ctx, &payload).expect_err("bound to another decoder");
    assert_eq!(err, DecoderError::InvalidSubscription);
}

#[test]
fn decode_unsubscribed_channel() {
    let mut ctx = fresh_context();
    let subtree = KeySubtree { lowest_timestamp: 0, highest_timestamp: u64::MAX, key: [1u8; 32] };
    let frame = frame_payload_from_subtree(6, 44, &subtree, b"X", [15u8; 24]);
    let err = decode(&mut ctx, &frame).expect_err("no subscription for channel 6");
    assert_eq!(err, DecoderError::InvalidSubscription);
}

#[test]
fn decode_short_payload() {
    let mut ctx = fresh_context();
    let err = decode(&mut ctx, &vec![0u8; 50]).expect_err("shorter than header and tail");
    assert_eq!(err, DecoderError::InvalidEncoderPayload);
}

#[test]
fn subscription_for_emergency_channel_rejected() {
    let mut ctx = fresh_context();
    let keys = vec![[1u8; 32]];
    let payload = subscription_payload(EMERGENCY_CHANNEL_ID, 0, &[0u8], &keys, DECODER_ID);
    let err = subscribe(&mut ctx, &payload).expect_err("emergency channel is never stored");
    assert_eq!(err, DecoderError::InvalidSubscription);
}

#[test]
fn subscription_with_overflowing_depths_rejected() {
    let mut ctx = fresh_context();
    // two full-range subtrees cannot both fit inside the timestamp space
    let keys = vec![[1u8; 32], [2u8; 32]];
    let payload = subscription_payload(4, 0, &[0u8, 0u8], &keys, DECODER_ID);
    let err = subscribe(&mut ctx, &payload).expect_err("depth walk leaves the timestamp space");
    assert_eq!(err, DecoderError::InvalidSubscription);
}
