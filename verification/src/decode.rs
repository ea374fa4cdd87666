//! The frame pipeline: validate the monotonic timestamp, resolve the
//! channel keys, decrypt the frame, and hand back the plaintext.
//!
//! What `decode` returns and how it moves the last decoded timestamp is
//! pinned by the specification functions [`spec_decode_result`] and
//! [`spec_decode_last`]: a function of the decoder state and the payload
//! alone.  Two laws follow below: a rejected timestamp never moves the
//! watermark ([`lemma_monotonic_rejection`]), and emergency-channel frames
//! decode the same whatever the subscription store holds
//! ([`lemma_emergency_independent`]).

use vstd::bytes::{spec_u64_from_le_bytes, u64_from_le_bytes};
use vstd::prelude::*;
use vstd::slice::{slice_subrange, slice_to_vec};

use crate::context::{DecoderContext, MAX_SUBSCRIPTIONS};
use crate::codec::lemma_entry_of;
use crate::derive::{derive_decoder_key_for_timestamp, spec_frame_key};
use crate::envelope::{decrypt_decoder_payload, payload_associated_data, spec_open_payload, PAYLOAD_HEADER_SIZE};
use crate::errors::DecoderError;

verus! {

/// Bytes of frame associated data: a timestamp and a channel id.
pub const FRAME_AD_SIZE: usize = 9;

/// Bytes of a frame plaintext: a length byte and 64 data bytes.
pub const FRAME_DATA_SIZE: usize = 65;

/// Longest frame a plaintext can carry.
pub const MAX_FRAME_SIZE: u8 = 64;

/// Non-encrypted associated data sent with a frame: needed to know the
/// channel and timestamp before the per-timestamp key can be derived.  It
/// is authenticated by the envelope signature before anything beyond key
/// lookup depends on it.
#[derive(Debug, Clone, Copy, PartialEq, Eq, Structural)]
pub struct FrameAssociatedData {
    /// The frame's timestamp.
    pub timestamp: u64,
    /// The channel the frame belongs to.
    pub channel_id: u8,
}

/// The timestamp carried in a frame payload's associated-data tail.
pub open spec fn spec_frame_timestamp(p: Seq<u8>) -> u64 {
    spec_u64_from_le_bytes(p.subrange(p.len() - FRAME_AD_SIZE, p.len() - 1))
}

/// The channel id carried in a frame payload's associated-data tail.
pub open spec fn spec_frame_channel(p: Seq<u8>) -> u8 {
    p[p.len() - 1]
}

/// What decrypting a frame payload under the resolved keys yields: the
/// frame bytes when the envelope opens to a well-formed frame plaintext,
/// an envelope error otherwise.
pub open spec fn spec_decode_with_keys(p: Seq<u8>, sym_key: Seq<u8>, public_key: Seq<u8>) -> Result<
    Seq<u8>,
    DecoderError,
> {
    match spec_open_payload(p, FRAME_AD_SIZE as int, sym_key, public_key) {
        Some(plaintext) => {
            if plaintext.len() == FRAME_DATA_SIZE && plaintext[0] <= MAX_FRAME_SIZE {
                Ok(plaintext.subrange(1, 1 + plaintext[0] as int))
            } else {
                Err(DecoderError::InvalidEncoderPayload)
            }
        },
        None => Err(DecoderError::InvalidEncoderPayload),
    }
}

/// Everything `decode` returns, as a function of the decoder state and the
/// payload: the checks run in order — payload long enough, timestamp
/// strictly above the watermark, keys resolvable (hardcoded for the
/// emergency channel, from the stored subscription otherwise), envelope
/// valid — and the first to fail names the error.
pub open spec fn spec_decode_result(ctx: DecoderContext, p: Seq<u8>) -> Result<
    Seq<u8>,
    DecoderError,
> {
    if p.len() < PAYLOAD_HEADER_SIZE + FRAME_AD_SIZE {
        Err(DecoderError::InvalidEncoderPayload)
    } else {
        let ts = spec_frame_timestamp(p);
        let ch = spec_frame_channel(p);
        if ctx.last_decoded_timestamp matches Some(last) && ts <= last {
            Err(DecoderError::NonMonotonicTimestamp)
        } else if ch as u32 == ctx.params.emergency_channel_id {
            spec_decode_with_keys(
                p,
                ctx.params.channel0_enc_key@,
                ctx.params.channel0_public_key@,
            )
        } else {
            match ctx.spec_find_channel(ch as u32, 0) {
                None => Err(DecoderError::InvalidSubscription),
                Some(i) => {
                    let e = ctx.spec_slot_entry(i);
                    if !e.spec_in_range(ts) {
                        Err(DecoderError::InvalidTimestamp)
                    } else {
                        spec_decode_with_keys(p, spec_frame_key(e, ts), e.public_key@)
                    }
                },
            }
        }
    }
}

/// Where `decode` leaves the last decoded timestamp: moved to the frame's
/// timestamp on success, untouched on any failure.
pub open spec fn spec_decode_last(ctx: DecoderContext, p: Seq<u8>) -> Option<u64> {
    if spec_decode_result(ctx, p) is Ok {
        Some(spec_frame_timestamp(p))
    } else {
        ctx.last_decoded_timestamp
    }
}

/// Reads the frame associated data from the payload tail.
pub fn frame_associated_data(payload: &Vec<u8>) -> (r: Result<FrameAssociatedData, DecoderError>)
    ensures
        match r {
            Ok(ad) => {
                &&& payload@.len() >= PAYLOAD_HEADER_SIZE + FRAME_AD_SIZE
                &&& ad.timestamp == spec_frame_timestamp(payload@)
                &&& ad.channel_id == spec_frame_channel(payload@)
            },
            Err(e) => {
                &&& e == DecoderError::InvalidEncoderPayload
                &&& payload@.len() < PAYLOAD_HEADER_SIZE + FRAME_AD_SIZE
            },
        },
{
    let tail = payload_associated_data(payload, FRAME_AD_SIZE)?;
    let timestamp = u64_from_le_bytes(slice_subrange(tail.as_slice(), 0, 8));
    let channel_id = tail[8];
    proof {
        let p = payload@;
        assert(tail@.subrange(0, 8) =~= p.subrange(p.len() - FRAME_AD_SIZE, p.len() - 1));
        assert(tail@[8] == p[p.len() - 1]);
    }
    Ok(FrameAssociatedData { timestamp, channel_id })
}

/// Performs all functionality related to decoding frames.
///
/// Returns the decoded frame bytes, to be sent back as the body of a
/// decode response.  The monotonic-timestamp check runs before any key
/// work; the subscription store is only read, never written, and the last
/// decoded timestamp moves exactly on success.
pub fn decode(context: &mut DecoderContext, encoded_frame: &Vec<u8>) -> (r: Result<
    Vec<u8>,
    DecoderError,
>)
    requires
        old(context).wf(),
    ensures
        final(context).wf(),
        final(context).params == old(context).params,
        final(context).subscriptions@.len() == MAX_SUBSCRIPTIONS,
        forall|i: int|
            0 <= i < MAX_SUBSCRIPTIONS ==> (#[trigger] final(context).subscriptions@[i]).flash_entry
                == old(context).subscriptions@[i].flash_entry,
        match r {
            Ok(frame) => spec_decode_result(*old(context), encoded_frame@) == Ok::<
                Seq<u8>,
                DecoderError,
            >(frame@),
            Err(e) => spec_decode_result(*old(context), encoded_frame@) == Err::<
                Seq<u8>,
                DecoderError,
            >(e),
        },
        final(context).last_decoded_timestamp == spec_decode_last(*old(context), encoded_frame@),
{
    let frame_info = frame_associated_data(encoded_frame)?;

    // check the frame we are decoding is monotonically increasing before
    // any key work
    if let Some(last_decoded) = context.last_decoded_timestamp {
        if frame_info.timestamp <= last_decoded {
            return Err(DecoderError::NonMonotonicTimestamp);
        }
    }

    let (symmetric_key, public_key) = match get_keys_for_channel(
        context,
        frame_info.channel_id,
        frame_info.timestamp,
    ) {
        Ok(keys) => keys,
        Err(e) => {
            return Err(e);
        },
    };

    // the frame plaintext has 1 byte at the start indicating its length and
    // 64 bytes of data after it, so that frame lengths are not leaked
    let frame_data = match decrypt_decoder_payload(
        encoded_frame,
        FRAME_AD_SIZE,
        &symmetric_key,
        &public_key,
    ) {
        Ok(plaintext) => plaintext,
        Err(e) => {
            return Err(e);
        },
    };

    if frame_data.len() != FRAME_DATA_SIZE {
        return Err(DecoderError::InvalidEncoderPayload);
    }
    let frame_len = frame_data[0];
    if frame_len > MAX_FRAME_SIZE {
        return Err(DecoderError::InvalidEncoderPayload);
    }

    // decoding succeeded, update the last decoded timestamp
    let ghost mid = *context;
    context.last_decoded_timestamp = Some(frame_info.timestamp);
    proof {
        assert(context.subscriptions == mid.subscriptions);
        assert forall|a: int, b: int|
            0 <= a < b < MAX_SUBSCRIPTIONS && context.spec_slot_occupied(a)
                && context.spec_slot_occupied(b) implies (
        #[trigger] context.spec_slot_entry(a)).channel_id != (
        #[trigger] context.spec_slot_entry(b)).channel_id by {
            assert(context.spec_slot_entry(a) == mid.spec_slot_entry(a));
            assert(context.spec_slot_entry(b) == mid.spec_slot_entry(b));
            assert(mid.spec_slot_occupied(a) && mid.spec_slot_occupied(b));
            assert(mid.spec_slot_entry(a).channel_id != mid.spec_slot_entry(b).channel_id);
        }
    }

    let frame = slice_to_vec(slice_subrange(
        frame_data.as_slice(),
        1,
        1 + frame_len as usize,
    ));
    Ok(frame)
}

/// Retrieves the symmetric and verifying keys for a frame on
/// `channel_id` encoded with `timestamp`: the hardcoded pair for the
/// emergency channel, the stored public key and derived per-timestamp key
/// otherwise.
fn get_keys_for_channel(context: &mut DecoderContext, channel_id: u8, timestamp: u64) -> (r:
    Result<([u8; 32], [u8; 32]), DecoderError>)
    requires
        old(context).wf(),
    ensures
        final(context).wf(),
        final(context).params == old(context).params,
        final(context).last_decoded_timestamp == old(context).last_decoded_timestamp,
        final(context).subscriptions@.len() == MAX_SUBSCRIPTIONS,
        forall|i: int|
            0 <= i < MAX_SUBSCRIPTIONS ==> (#[trigger] final(context).subscriptions@[i]).flash_entry
                == old(context).subscriptions@[i].flash_entry,
        match r {
            Ok((sym, pk)) => {
                if channel_id as u32 == old(context).params.emergency_channel_id {
                    sym == old(context).params.channel0_enc_key && pk == old(
                        context,
                    ).params.channel0_public_key
                } else {
                    match old(context).spec_find_channel(channel_id as u32, 0) {
                        Some(i) => {
                            let e = old(context).spec_slot_entry(i);
                            &&& e.spec_in_range(timestamp)
                            &&& sym@ == spec_frame_key(e, timestamp)
                            &&& pk@ == e.public_key@
                        },
                        None => false,
                    }
                }
            },
            Err(e) => {
                &&& channel_id as u32 != old(context).params.emergency_channel_id
                &&& match old(context).spec_find_channel(channel_id as u32, 0) {
                    Some(i) => e == DecoderError::InvalidTimestamp && !old(
                        context,
                    ).spec_slot_entry(i).spec_in_range(timestamp),
                    None => e == DecoderError::InvalidSubscription,
                }
            },
        },
{
    if channel_id as u32 == context.params.emergency_channel_id {
        // emergency channel keys are hardcoded
        Ok((context.params.channel0_enc_key, context.params.channel0_public_key))
    } else {
        // other channel keys are derived from subscription data
        let slot = match context.find_channel_index(channel_id as u32) {
            Some(i) => i,
            None => {
                return Err(DecoderError::InvalidSubscription);
            },
        };
        proof {
            crate::context::lemma_find_channel_found(*context, channel_id as u32, 0);
        }

        let subscription = match context.subscriptions[slot].flash_entry.get() {
            Some(e) => e,
            None => {
                proof {
                    assert(false);
                }
                return Err(DecoderError::InvalidSubscription);
            },
        };
        proof {
            lemma_entry_of(subscription, context.subscriptions@[slot as int].flash_entry.spec_body());
        }

        // this check also guards the derivation below, which fails on the
        // same timestamps
        if timestamp < subscription.start_time || timestamp > subscription.end_time() {
            return Err(DecoderError::InvalidTimestamp);
        }

        // derive the symmetric key from the subscription data and timestamp,
        // moving the cache aside while it is walked
        let mut cache_slot: Option<crate::derive::ChannelCache> = None;
        let info = &mut context.subscriptions[slot];
        core::mem::swap(&mut info.cache, &mut cache_slot);
        let mut cache = match cache_slot {
            Some(c) => c,
            None => {
                proof {
                    assert(false);
                }
                return Err(DecoderError::InvalidSubscription);
            },
        };

        let derived = derive_decoder_key_for_timestamp(&subscription, &mut cache, timestamp);
        let public_key = cache.public_key;
        let info = &mut context.subscriptions[slot];
        info.cache = Some(cache);

        proof {
            assert(context.subscriptions@ =~= old(context).subscriptions@.update(
                slot as int,
                context.subscriptions@[slot as int],
            ));
            assert forall|i: int| 0 <= i < MAX_SUBSCRIPTIONS implies (
            #[trigger] context.subscriptions@[i]).wf(context.params.emergency_channel_id) by {
                if i != slot {
                    assert(context.subscriptions@[i] == old(context).subscriptions@[i]);
                }
            }
            assert forall|a: int, b: int|
                0 <= a < b < MAX_SUBSCRIPTIONS && context.spec_slot_occupied(a)
                    && context.spec_slot_occupied(b) implies (
            #[trigger] context.spec_slot_entry(a)).channel_id != (
            #[trigger] context.spec_slot_entry(b)).channel_id by {
                assert(context.spec_slot_entry(a) == old(context).spec_slot_entry(a));
                assert(context.spec_slot_entry(b) == old(context).spec_slot_entry(b));
                assert(old(context).spec_slot_occupied(a) && old(context).spec_slot_occupied(b));
                assert(old(context).spec_slot_entry(a).channel_id != old(
                    context,
                ).spec_slot_entry(b).channel_id);
            }
        }

        match derived {
            Ok(symmetric_key) => Ok((symmetric_key, public_key)),
            Err(_) => {
                proof {
                    assert(false);
                }
                Err(DecoderError::InvalidTimestamp)
            },
        }
    }
}

/// Monotonic rejection: after a successful decode at timestamp `t`, any
/// frame whose timestamp does not exceed `t` is rejected as non-monotonic
/// and the watermark stays where it was.
pub proof fn lemma_monotonic_rejection(ctx: DecoderContext, p: Seq<u8>, t: u64)
    requires
        ctx.last_decoded_timestamp == Some(t),
        p.len() >= PAYLOAD_HEADER_SIZE + FRAME_AD_SIZE,
        spec_frame_timestamp(p) <= t,
    ensures
        spec_decode_result(ctx, p) == Err::<Seq<u8>, DecoderError>(
            DecoderError::NonMonotonicTimestamp,
        ),
        spec_decode_last(ctx, p) == Some(t),
{
}

/// Emergency channel independence: two decoder states that agree on their
/// parameters and watermark — whatever their subscription stores hold —
/// decode an emergency-channel frame identically.
pub proof fn lemma_emergency_independent(c1: DecoderContext, c2: DecoderContext, p: Seq<u8>)
    requires
        c1.params == c2.params,
        c1.last_decoded_timestamp == c2.last_decoded_timestamp,
        p.len() >= PAYLOAD_HEADER_SIZE + FRAME_AD_SIZE,
        spec_frame_channel(p) as u32 == c1.params.emergency_channel_id,
    ensures
        spec_decode_result(c1, p) == spec_decode_result(c2, p),
        spec_decode_last(c1, p) == spec_decode_last(c2, p),
{
}

} // verus!
