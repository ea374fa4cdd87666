//! The subscription pipeline: check the decoder binding, decrypt the
//! payload, parse the compressed subscription, and commit it to the store.

use vstd::bytes::{spec_u32_from_le_bytes, spec_u64_from_le_bytes, u32_from_le_bytes, u64_from_le_bytes};
use vstd::prelude::*;
use vstd::slice::{slice_subrange, slice_to_vec};

use crate::codec::read_key_bytes;
use crate::context::{spec_update_target, DecoderContext, MAX_SUBSCRIPTIONS};
use crate::envelope::{decrypt_decoder_payload, payload_associated_data, spec_open_payload, PAYLOAD_HEADER_SIZE};
use crate::errors::{CursorError, DecoderError};
use crate::subscription::{
    lemma_interval_lo_prefix, spec_interval_lo, CompressedSubscriptionEntry, MAX_SUBTREES,
};
use crate::utils::Cursor;

verus! {

/// Bytes of subscription associated data: the decoder id.
pub const SUBSCRIPTION_AD_SIZE: usize = 4;

/// Offset of the subtree count in a subscription plaintext.
pub const PLAINTEXT_COUNT_OFFSET: usize = 44;

/// Offset of the depth list in a subscription plaintext.
pub const PLAINTEXT_DEPTHS_OFFSET: usize = 45;

/// Whether `e` carries exactly the fields of the subscription plaintext
/// `data`: `public_key ‖ start_time ‖ channel_id ‖ subtree_count ‖ depths
/// ‖ node_keys`, with the unused depth and key slots zeroed.
pub open spec fn spec_subscription_fields(e: CompressedSubscriptionEntry, data: Seq<u8>) -> bool {
    let n = data[PLAINTEXT_COUNT_OFFSET as int] as int;
    &&& e.public_key@ == data.subrange(0, 32)
    &&& e.start_time == spec_u64_from_le_bytes(data.subrange(32, 40))
    &&& e.channel_id == spec_u32_from_le_bytes(data.subrange(40, 44))
    &&& e.subtree_count == data[PLAINTEXT_COUNT_OFFSET as int]
    &&& e.depths@.subrange(0, n) == data.subrange(
        PLAINTEXT_DEPTHS_OFFSET as int,
        PLAINTEXT_DEPTHS_OFFSET + n,
    )
    &&& forall|k: int| n <= k < 128 ==> e.depths@[k] == 0u8
    &&& forall|j: int|
        0 <= j < n ==> (#[trigger] e.node_keys@[j])@ == data.subrange(
            PLAINTEXT_DEPTHS_OFFSET + n + 32 * j,
            PLAINTEXT_DEPTHS_OFFSET + n + 32 * j + 32,
        )
}

/// The error `read_subscription` gives on `data`, if any: cursor errors
/// when the plaintext runs short, an invalid-subscription error when a
/// semantic check fails.  The checks run in the order the fields are read.
pub open spec fn spec_read_subscription_error(data: Seq<u8>, emergency_channel_id: u32) -> Option<
    DecoderError,
> {
    let len = data.len() as int;
    if len < 32 {
        Some(DecoderError::CursorError(CursorError::OversizeError(len as usize)))
    } else if len < 40 {
        Some(DecoderError::CursorError(CursorError::OversizeError((len - 32) as usize)))
    } else if len < 44 {
        Some(DecoderError::CursorError(CursorError::OversizeError((len - 40) as usize)))
    } else if spec_u32_from_le_bytes(data.subrange(40, 44)) == emergency_channel_id {
        Some(DecoderError::InvalidSubscription)
    } else if len < 45 {
        Some(DecoderError::CursorError(CursorError::OversizeError((len - 44) as usize)))
    } else {
        let n = data[PLAINTEXT_COUNT_OFFSET as int] as int;
        if n < 1 || n > MAX_SUBTREES {
            Some(DecoderError::InvalidSubscription)
        } else if len < 45 + n {
            Some(DecoderError::CursorError(CursorError::OversizeError((len - 45) as usize)))
        } else if len < 45 + n + 32 * n {
            Some(DecoderError::CursorError(CursorError::OversizeError((len - 45 - n) as usize)))
        } else if !(forall|k: int|
            0 <= k < n ==> #[trigger] data[PLAINTEXT_DEPTHS_OFFSET + k] <= 64) || spec_interval_lo(
            spec_u64_from_le_bytes(data.subrange(32, 40)),
            data.subrange(PLAINTEXT_DEPTHS_OFFSET as int, PLAINTEXT_DEPTHS_OFFSET + n),
            n,
        ) > u64::MAX + 1 {
            Some(DecoderError::InvalidSubscription)
        } else {
            None
        }
    }
}

/// Parses a subscription entry from the subscription data plaintext.
///
/// The strict layout is `public_key[32] ‖ start_time:u64 ‖ channel_id:u32
/// ‖ subtree_count:u8 ‖ depths[count] ‖ node_keys[count][32]`, integers
/// little-endian.  Rejected: a plaintext for the emergency channel, a
/// subtree count of zero or above 128, and depth lists whose walked
/// intervals leave the 64-bit timestamp space.
pub fn read_subscription(data: &Vec<u8>, emergency_channel_id: u32) -> (r: Result<
    CompressedSubscriptionEntry,
    DecoderError,
>)
    ensures
        match r {
            Ok(e) => {
                &&& spec_read_subscription_error(data@, emergency_channel_id) is None
                &&& spec_subscription_fields(e, data@)
                &&& e.wf()
                &&& e.channel_id != emergency_channel_id
            },
            Err(err) => Some(err) == spec_read_subscription_error(data@, emergency_channel_id),
        },
{
    let ghost n_spec = data@[PLAINTEXT_COUNT_OFFSET as int] as int;
    let mut cursor = Cursor::new(slice_to_vec(data.as_slice()));

    let mut public_key_buf: Vec<u8> = vec![0u8; 32];
    if let Err(e) = cursor.read_into(&mut public_key_buf) {
        return Err(DecoderError::CursorError(e));
    }
    let public_key = read_key_bytes(public_key_buf.as_slice());

    let mut start_buf: Vec<u8> = vec![0u8; 8];
    if let Err(e) = cursor.read_into(&mut start_buf) {
        return Err(DecoderError::CursorError(e));
    }
    let start_time = u64_from_le_bytes(start_buf.as_slice());

    let mut channel_buf: Vec<u8> = vec![0u8; 4];
    if let Err(e) = cursor.read_into(&mut channel_buf) {
        return Err(DecoderError::CursorError(e));
    }
    let channel_id = u32_from_le_bytes(channel_buf.as_slice());
    if channel_id == emergency_channel_id {
        return Err(DecoderError::InvalidSubscription);
    }

    let mut count_buf: Vec<u8> = vec![0u8; 1];
    if let Err(e) = cursor.read_into(&mut count_buf) {
        return Err(DecoderError::CursorError(e));
    }
    let subtree_count_byte = count_buf[0];
    let subtree_count = subtree_count_byte as u32;
    if subtree_count < 1 || subtree_count > MAX_SUBTREES {
        return Err(DecoderError::InvalidSubscription);
    }
    let count = subtree_count as usize;

    let mut depth_buf: Vec<u8> = vec![0u8; count];
    if let Err(e) = cursor.read_into(&mut depth_buf) {
        return Err(DecoderError::CursorError(e));
    }
    let mut depths = [0u8; 128];
    let mut i: usize = 0;
    while i < count
        invariant
            0 <= i <= count <= 128,
            depth_buf@.len() == count,
            forall|k: int| 0 <= k < i ==> depths@[k] == depth_buf@[k],
            forall|k: int| i <= k < 128 ==> depths@[k] == 0u8,
        decreases count - i,
    {
        depths[i] = depth_buf[i];
        i += 1;
    }

    let mut key_buf: Vec<u8> = vec![0u8; 32 * count];
    if let Err(e) = cursor.read_into(&mut key_buf) {
        return Err(DecoderError::CursorError(e));
    }
    let mut node_keys = [[0u8; 32]; 128];
    let ghost zero_key = node_keys@[0];
    let mut j: usize = 0;
    while j < count
        invariant
            0 <= j <= count <= 128,
            key_buf@.len() == 32 * count,
            forall|k: int|
                0 <= k < j ==> (#[trigger] node_keys@[k])@ == key_buf@.subrange(
                    32 * k,
                    32 * k + 32,
                ),
            forall|k: int| j <= k < 128 ==> node_keys@[k] == zero_key,
        decreases count - j,
    {
        let key = read_key_bytes(slice_subrange(key_buf.as_slice(), 32 * j, 32 * j + 32));
        node_keys[j] = key;
        j += 1;
    }

    // to save time on flash writes, the subscription stays "compressed"
    // (depths instead of explicit bounds) in flash and is expanded on use
    let subscription = CompressedSubscriptionEntry {
        public_key,
        start_time,
        channel_id,
        subtree_count,
        depths,
        node_keys,
    };

    proof {
        assert(n_spec == count);
        assert(subscription.depths@.subrange(0, n_spec) =~= data@.subrange(
            PLAINTEXT_DEPTHS_OFFSET as int,
            PLAINTEXT_DEPTHS_OFFSET + n_spec,
        ));
        assert forall|k: int| 0 <= k < n_spec implies (#[trigger] subscription.node_keys@[k])@
            == data@.subrange(
            PLAINTEXT_DEPTHS_OFFSET + n_spec + 32 * k,
            PLAINTEXT_DEPTHS_OFFSET + n_spec + 32 * k + 32,
        ) by {
            assert(key_buf@.subrange(32 * k, 32 * k + 32) =~= data@.subrange(
                PLAINTEXT_DEPTHS_OFFSET + n_spec + 32 * k,
                PLAINTEXT_DEPTHS_OFFSET + n_spec + 32 * k + 32,
            ));
        }
        assert(spec_subscription_fields(subscription, data@));
        lemma_interval_lo_prefix(
            start_time,
            subscription.depths@,
            data@.subrange(PLAINTEXT_DEPTHS_OFFSET as int, PLAINTEXT_DEPTHS_OFFSET + n_spec),
            n_spec,
        );
        // the well-formedness of the parsed entry is exactly the remaining
        // condition on the plaintext bytes
        assert forall|k: int| 0 <= k < n_spec implies subscription.depths@[k] == #[trigger] data@[
            PLAINTEXT_DEPTHS_OFFSET + k
        ] by {
            assert(subscription.depths@.subrange(0, n_spec)[k] == subscription.depths@[k]);
            assert(data@.subrange(PLAINTEXT_DEPTHS_OFFSET as int, PLAINTEXT_DEPTHS_OFFSET
                + n_spec)[k] == data@[PLAINTEXT_DEPTHS_OFFSET + k]);
        }
        let data_lo = spec_interval_lo(
            spec_u64_from_le_bytes(data@.subrange(32, 40)),
            data@.subrange(PLAINTEXT_DEPTHS_OFFSET as int, PLAINTEXT_DEPTHS_OFFSET + n_spec),
            n_spec,
        );
        if subscription.wf() {
            assert forall|k: int| 0 <= k < n_spec implies #[trigger] data@[PLAINTEXT_DEPTHS_OFFSET
                + k] <= 64 by {
                assert(subscription.depths@[k] <= 64);
            }
            assert(data_lo <= u64::MAX + 1);
        } else if (forall|k: int|
            0 <= k < n_spec ==> #[trigger] data@[PLAINTEXT_DEPTHS_OFFSET + k] <= 64) && data_lo
            <= u64::MAX + 1 {
            assert forall|i: int| 0 <= i < subscription.subtree_count implies
                subscription.depths@[i] <= 64 by {
                assert(data@[PLAINTEXT_DEPTHS_OFFSET + i] <= 64);
            }
            assert(subscription.wf());
        }
    }

    // the data model demands that the depth walk stays inside the
    // timestamp space; a subscription that leaves it is malformed
    if !subscription.check_wf() {
        return Err(DecoderError::InvalidSubscription);
    }

    Ok(subscription)
}

/// The plaintext the authority produces for a subscription: the strict
/// layout that `read_subscription` parses.
pub open spec fn spec_subscription_plaintext(
    public_key: Seq<u8>,
    start_time: u64,
    channel_id: u32,
    depths: Seq<u8>,
    node_keys: Seq<[u8; 32]>,
) -> Seq<u8> {
    public_key + vstd::bytes::spec_u64_to_le_bytes(start_time) + vstd::bytes::spec_u32_to_le_bytes(
        channel_id,
    ) + seq![depths.len() as u8] + depths + crate::codec::flat_keys_prefix(
        node_keys,
        node_keys.len() as int,
    )
}

/// Builds a subscription plaintext, as the broadcast authority does before
/// encrypting and signing it.
pub fn encode_subscription_plaintext(
    public_key: &[u8; 32],
    start_time: u64,
    channel_id: u32,
    depths: &[u8],
    node_keys: &Vec<[u8; 32]>,
) -> (out: Vec<u8>)
    requires
        1 <= depths@.len() <= MAX_SUBTREES,
        depths@.len() == node_keys@.len(),
    ensures
        out@ == spec_subscription_plaintext(
            public_key@,
            start_time,
            channel_id,
            depths@,
            node_keys@,
        ),
{
    let mut out: Vec<u8> = Vec::new();
    out.extend_from_slice(public_key.as_slice());
    let start_bytes = vstd::bytes::u64_to_le_bytes(start_time);
    out.extend_from_slice(start_bytes.as_slice());
    let channel_bytes = vstd::bytes::u32_to_le_bytes(channel_id);
    out.extend_from_slice(channel_bytes.as_slice());
    out.push(depths.len() as u8);
    out.extend_from_slice(depths);
    let ghost prefix = out@;
    let mut j: usize = 0;
    while j < node_keys.len()
        invariant
            0 <= j <= node_keys@.len(),
            out@ == prefix + crate::codec::flat_keys_prefix(node_keys@, j as int),
        decreases node_keys@.len() - j,
    {
        out.extend_from_slice(node_keys[j].as_slice());
        assert(out@ == prefix + crate::codec::flat_keys_prefix(node_keys@, j + 1));
        j += 1;
    }
    proof {
        assert(out@ =~= spec_subscription_plaintext(
            public_key@,
            start_time,
            channel_id,
            depths@,
            node_keys@,
        ));
    }
    out
}

/// Non-encrypted associated data sent with a subscription: signing the
/// plaintext decoder id ensures only one symmetric key can have been used
/// to encrypt the payload.
#[derive(Debug, Clone, Copy, PartialEq, Eq, Structural)]
pub struct SubscriptionAssociatedData {
    /// The decoder the subscription is bound to.
    pub decoder_id: u32,
}

/// The decoder id carried in a subscription payload's tail.
pub open spec fn spec_subscription_decoder_id(p: Seq<u8>) -> u32 {
    spec_u32_from_le_bytes(p.skip(p.len() - SUBSCRIPTION_AD_SIZE))
}

/// Everything `subscribe` returns, as a function of the decoder state and
/// the payload: the binding check, the envelope, the parse, and the store
/// update, in that order, and the first to fail names the error.
pub open spec fn spec_subscribe_result(ctx: DecoderContext, p: Seq<u8>) -> Result<
    (),
    DecoderError,
> {
    if p.len() < PAYLOAD_HEADER_SIZE + SUBSCRIPTION_AD_SIZE {
        Err(DecoderError::InvalidEncoderPayload)
    } else if spec_subscription_decoder_id(p) != ctx.params.decoder_id {
        Err(DecoderError::InvalidSubscription)
    } else {
        match spec_open_payload(
            p,
            SUBSCRIPTION_AD_SIZE as int,
            ctx.params.subscription_enc_key@,
            ctx.params.subscription_public_key@,
        ) {
            None => Err(DecoderError::InvalidEncoderPayload),
            Some(plaintext) => match spec_read_subscription_error(
                plaintext,
                ctx.params.emergency_channel_id,
            ) {
                Some(e) => Err(e),
                None => {
                    let channel = spec_u32_from_le_bytes(plaintext.subrange(40, 44));
                    if spec_update_target(ctx, channel) is Some {
                        Ok(())
                    } else {
                        Err(
                            DecoderError::DecoderContextError(
                                crate::errors::DecoderContextError::TooManySubscriptions,
                            ),
                        )
                    }
                },
            },
        }
    }
}

/// Performs the subscribe functionality required by the host tools.
///
/// On success the slot chosen by the store's update policy holds exactly
/// the parsed subscription and every other slot is untouched; on failure
/// no slot changes.  The last decoded timestamp never moves.
pub fn subscribe(context: &mut DecoderContext, subscribe_data: &Vec<u8>) -> (r: Result<
    (),
    DecoderError,
>)
    requires
        old(context).wf(),
    ensures
        final(context).wf(),
        final(context).params == old(context).params,
        final(context).last_decoded_timestamp == old(context).last_decoded_timestamp,
        final(context).subscriptions@.len() == MAX_SUBSCRIPTIONS,
        match r {
            Ok(()) => spec_subscribe_result(*old(context), subscribe_data@) is Ok,
            Err(e) => spec_subscribe_result(*old(context), subscribe_data@) == Err::<
                (),
                DecoderError,
            >(e),
        },
        r is Ok ==> {
            let plaintext = spec_open_payload(
                subscribe_data@,
                SUBSCRIPTION_AD_SIZE as int,
                old(context).params.subscription_enc_key@,
                old(context).params.subscription_public_key@,
            )->Some_0;
            let channel = spec_u32_from_le_bytes(plaintext.subrange(40, 44));
            let i = spec_update_target(*old(context), channel)->Some_0;
            &&& final(context).spec_slot_occupied(i)
            &&& spec_subscription_fields(final(context).spec_slot_entry(i), plaintext)
            &&& forall|j: int|
                0 <= j < MAX_SUBSCRIPTIONS && j != i ==> (
                #[trigger] final(context).subscriptions@[j]).flash_entry == old(
                    context,
                ).subscriptions@[j].flash_entry
        },
        r is Err ==> forall|j: int|
            0 <= j < MAX_SUBSCRIPTIONS ==> (#[trigger] final(context).subscriptions@[j]).flash_entry
                == old(context).subscriptions@[j].flash_entry,
{
    let tail = match payload_associated_data(subscribe_data, SUBSCRIPTION_AD_SIZE) {
        Ok(tail) => tail,
        Err(e) => {
            return Err(e);
        },
    };
    let decoder_id = u32_from_le_bytes(tail.as_slice());
    proof {
        assert(tail@ =~= subscribe_data@.skip(
            subscribe_data@.len() - SUBSCRIPTION_AD_SIZE as int,
        ));
    }
    if decoder_id != context.params.decoder_id {
        return Err(DecoderError::InvalidSubscription);
    }

    let subscription_data = match decrypt_decoder_payload(
        subscribe_data,
        SUBSCRIPTION_AD_SIZE,
        &context.params.subscription_enc_key,
        &context.params.subscription_public_key,
    ) {
        Ok(plaintext) => plaintext,
        Err(e) => {
            return Err(e);
        },
    };

    let entry = match read_subscription(&subscription_data, context.params.emergency_channel_id) {
        Ok(entry) => entry,
        Err(e) => {
            return Err(e);
        },
    };

    match context.update_subscription(&entry) {
        Ok(()) => Ok(()),
        Err(e) => Err(DecoderError::DecoderContextError(e)),
    }
}

} // verus!
