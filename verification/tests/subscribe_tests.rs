//! Parsing of subscription plaintexts and the store's lookup surface.

use decoder::context::{DecoderContext, DecoderParams, MAX_SUBSCRIPTIONS};
use decoder::envelope::signer_public_key;
use decoder::errors::{CursorError, DecoderError, MessageError};
use decoder::flash::FlashEntry;
use decoder::message::Message;
use decoder::subscribe::{encode_subscription_plaintext, read_subscription};
use decoder::uart::Uart;

const EMERGENCY: u32 = 0;

fn plaintext_for(channel_id: u32, start: u64, depths: &[u8]) -> Vec<u8> {
    let keys: Vec<[u8; 32]> = depths.iter().map(|d| [*d; 32]).collect();
    encode_subscription_plaintext(&[6u8; 32], start, channel_id, depths, &keys)
}

#[test]
fn read_subscription_parses_fields() {
    let plaintext = plaintext_for(12, 100, &[58, 59, 62]);
    let entry = read_subscription(&plaintext, EMERGENCY).expect("well-formed plaintext");
    assert_eq!(entry.public_key, [6u8; 32]);
    assert_eq!(entry.start_time, 100);
    assert_eq!(entry.channel_id, 12);
    assert_eq!(entry.subtree_count, 3);
    assert_eq!(&entry.depths[..3], &[58, 59, 62]);
    assert_eq!(entry.depths[3], 0);
    assert_eq!(entry.node_keys[0], [58u8; 32]);
    assert_eq!(entry.node_keys[2], [62u8; 32]);
    assert_eq!(entry.node_keys[3], [0u8; 32]);
    assert_eq!(entry.end_time(), 199);
}

#[test]
fn read_subscription_rejects_short_plaintext() {
    // ten bytes cannot even hold the public key: the first read reports
    // how many bytes remained
    let err = read_subscription(&vec![0u8; 10], EMERGENCY).unwrap_err();
    assert_eq!(err, DecoderError::CursorError(CursorError::OversizeError(10)));

    // a plaintext cut inside the key list fails at the key read
    let mut truncated = plaintext_for(12, 100, &[58, 59, 62]);
    truncated.truncate(truncated.len() - 1);
    let err = read_subscription(&truncated, EMERGENCY).unwrap_err();
    assert!(matches!(err, DecoderError::CursorError(CursorError::OversizeError(_))));
}

#[test]
fn read_subscription_rejects_bad_semantics() {
    // the emergency channel can never be subscribed
    let plaintext = plaintext_for(EMERGENCY, 0, &[0]);
    assert_eq!(read_subscription(&plaintext, EMERGENCY).unwrap_err(), DecoderError::InvalidSubscription);

    // a zero subtree count covers nothing
    let mut empty = plaintext_for(12, 0, &[0]);
    empty[44] = 0;
    assert_eq!(read_subscription(&empty, EMERGENCY).unwrap_err(), DecoderError::InvalidSubscription);

    // a depth above the tree's own depth
    let deep = plaintext_for(12, 0, &[65]);
    assert_eq!(read_subscription(&deep, EMERGENCY).unwrap_err(), DecoderError::InvalidSubscription);

    // a depth walk that leaves the timestamp space
    let overflowing = plaintext_for(12, 1, &[0]);
    assert_eq!(
        read_subscription(&overflowing, EMERGENCY).unwrap_err(),
        DecoderError::InvalidSubscription
    );
}

#[test]
fn store_lookup_by_channel() {
    let params = DecoderParams {
        decoder_id: 1,
        subscription_enc_key: [0u8; 32],
        subscription_public_key: signer_public_key(&[1u8; 32]),
        channel0_enc_key: [0u8; 32],
        channel0_public_key: signer_public_key(&[2u8; 32]),
        emergency_channel_id: EMERGENCY,
    };
    let mut pages = Vec::new();
    for _ in 0..MAX_SUBSCRIPTIONS {
        pages.push(FlashEntry::new_erased());
    }
    let mut ctx = DecoderContext::new(params, pages);
    assert!(ctx.get_subscription_for_channel(12).is_none());

    let plaintext = plaintext_for(12, 100, &[58, 59, 62]);
    let entry = read_subscription(&plaintext, EMERGENCY).unwrap();
    ctx.update_subscription(&entry).expect("a slot is free");

    let stored = ctx.get_subscription_for_channel(12).expect("just stored");
    assert_eq!(stored.channel_id, 12);
    assert_eq!(stored.start_time, 100);
    assert_eq!(stored.public_key, [6u8; 32]);
    assert!(ctx.get_subscription_for_channel(13).is_none());
}

#[test]
fn nonzero_ack_body_is_rejected() {
    // an acknowledgement must have an empty body
    let mut uart = Uart::new(vec![0x25, 0x41, 2, 0]);
    let err = Message::read_ack(&mut uart).unwrap_err();
    assert_eq!(err, MessageError::AckError);

    let mut uart = Uart::new(vec![0x25, 0x41, 0, 0]);
    Message::read_ack(&mut uart).expect("a proper ack");
}
