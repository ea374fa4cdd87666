//! Fixed-layout byte encoding of a subscription entry, as it is persisted in
//! a flash slot: every field at a fixed offset, integers little-endian.

use vstd::bytes::{
    lemma_auto_spec_u32_to_from_le_bytes, lemma_auto_spec_u64_to_from_le_bytes, spec_u32_from_le_bytes,
    spec_u32_to_le_bytes, spec_u64_from_le_bytes, spec_u64_to_le_bytes, u32_from_le_bytes, u32_to_le_bytes,
    u64_from_le_bytes, u64_to_le_bytes,
};
use vstd::prelude::*;
use vstd::slice::slice_subrange;

use crate::subscription::CompressedSubscriptionEntry;

verus! {

/// Byte offset of the subscription start time in the encoded entry.
pub const START_TIME_OFFSET: usize = 32;

/// Byte offset of the channel id in the encoded entry.
pub const CHANNEL_ID_OFFSET: usize = 40;

/// Byte offset of the subtree count in the encoded entry.
pub const SUBTREE_COUNT_OFFSET: usize = 44;

/// Byte offset of the depth list in the encoded entry.
pub const DEPTHS_OFFSET: usize = 48;

/// Byte offset of the subtree key list in the encoded entry.
pub const NODE_KEYS_OFFSET: usize = 176;

/// Total size of an encoded subscription entry.
pub const ENTRY_SIZE: usize = 4272;

/// The concatenation of the first `j` subtree keys.
pub open spec fn flat_keys_prefix(keys: Seq<[u8; 32]>, j: int) -> Seq<u8>
    decreases j,
{
    if j <= 0 {
        Seq::empty()
    } else {
        flat_keys_prefix(keys, j - 1) + keys[j - 1]@
    }
}

/// The encoded form of a subscription entry.
pub open spec fn spec_entry_bytes(e: CompressedSubscriptionEntry) -> Seq<u8> {
    e.public_key@ + spec_u64_to_le_bytes(e.start_time) + spec_u32_to_le_bytes(e.channel_id)
        + spec_u32_to_le_bytes(e.subtree_count) + e.depths@ + flat_keys_prefix(e.node_keys@, 128)
}

/// Whether `bytes` is the encoded form of `e`, stated field by field.
pub open spec fn entry_matches_bytes(e: CompressedSubscriptionEntry, bytes: Seq<u8>) -> bool {
    &&& bytes.len() == ENTRY_SIZE
    &&& e.public_key@ == bytes.subrange(0, START_TIME_OFFSET as int)
    &&& e.start_time == spec_u64_from_le_bytes(
        bytes.subrange(START_TIME_OFFSET as int, CHANNEL_ID_OFFSET as int),
    )
    &&& e.channel_id == spec_u32_from_le_bytes(
        bytes.subrange(CHANNEL_ID_OFFSET as int, SUBTREE_COUNT_OFFSET as int),
    )
    &&& e.subtree_count == spec_u32_from_le_bytes(
        bytes.subrange(SUBTREE_COUNT_OFFSET as int, DEPTHS_OFFSET as int),
    )
    &&& e.depths@ == bytes.subrange(DEPTHS_OFFSET as int, NODE_KEYS_OFFSET as int)
    &&& forall|j: int|
        0 <= j < 128 ==> (#[trigger] e.node_keys@[j])@ == bytes.subrange(
            NODE_KEYS_OFFSET + 32 * j,
            NODE_KEYS_OFFSET + 32 * j + 32,
        )
}

/// The flattened key list is 32 bytes per key, and key `j` sits at offset `32 * j`.
pub proof fn lemma_flat_keys_prefix(keys: Seq<[u8; 32]>, n: int)
    requires
        0 <= n,
    ensures
        flat_keys_prefix(keys, n).len() == 32 * n,
        forall|j: int|
            0 <= j < n ==> flat_keys_prefix(keys, n).subrange(32 * j, 32 * j + 32) == (
            #[trigger] keys[j])@,
    decreases n,
{
    if n > 0 {
        lemma_flat_keys_prefix(keys, n - 1);
        assert forall|j: int| 0 <= j < n implies flat_keys_prefix(keys, n).subrange(
            32 * j,
            32 * j + 32,
        ) == (#[trigger] keys[j])@ by {
            if j < n - 1 {
                assert(flat_keys_prefix(keys, n).subrange(32 * j, 32 * j + 32)
                    =~= flat_keys_prefix(keys, n - 1).subrange(32 * j, 32 * j + 32));
            } else {
                assert(flat_keys_prefix(keys, n).subrange(32 * j, 32 * j + 32) =~= keys[j]@);
            }
        }
    }
}

/// The encoded form of an entry is `ENTRY_SIZE` bytes long and decodes back
/// to the entry's own fields.
pub proof fn lemma_entry_bytes_roundtrip(e: CompressedSubscriptionEntry)
    ensures
        spec_entry_bytes(e).len() == ENTRY_SIZE,
        entry_matches_bytes(e, spec_entry_bytes(e)),
{
    let bytes = spec_entry_bytes(e);
    lemma_auto_spec_u64_to_from_le_bytes();
    lemma_auto_spec_u32_to_from_le_bytes();
    lemma_flat_keys_prefix(e.node_keys@, 128);
    assert(e.public_key@ =~= bytes.subrange(0, START_TIME_OFFSET as int));
    assert(spec_u64_to_le_bytes(e.start_time) =~= bytes.subrange(
        START_TIME_OFFSET as int,
        CHANNEL_ID_OFFSET as int,
    ));
    assert(spec_u32_to_le_bytes(e.channel_id) =~= bytes.subrange(
        CHANNEL_ID_OFFSET as int,
        SUBTREE_COUNT_OFFSET as int,
    ));
    assert(spec_u32_to_le_bytes(e.subtree_count) =~= bytes.subrange(
        SUBTREE_COUNT_OFFSET as int,
        DEPTHS_OFFSET as int,
    ));
    assert(e.depths@ =~= bytes.subrange(DEPTHS_OFFSET as int, NODE_KEYS_OFFSET as int));
    assert forall|j: int| 0 <= j < 128 implies (#[trigger] e.node_keys@[j])@ == bytes.subrange(
        NODE_KEYS_OFFSET + 32 * j,
        NODE_KEYS_OFFSET + 32 * j + 32,
    ) by {
        assert(flat_keys_prefix(e.node_keys@, 128).subrange(32 * j, 32 * j + 32) == e.node_keys@[j]@);
        assert(bytes.subrange(NODE_KEYS_OFFSET + 32 * j, NODE_KEYS_OFFSET + 32 * j + 32)
            =~= flat_keys_prefix(e.node_keys@, 128).subrange(32 * j, 32 * j + 32));
    }
}

/// The entry a byte string encodes, when it encodes one.
pub open spec fn spec_entry_of(bytes: Seq<u8>) -> CompressedSubscriptionEntry {
    choose|e: CompressedSubscriptionEntry| entry_matches_bytes(e, bytes)
}

/// Any entry a byte string matches is the entry it encodes.
pub proof fn lemma_entry_of(e: CompressedSubscriptionEntry, bytes: Seq<u8>)
    requires
        entry_matches_bytes(e, bytes),
    ensures
        spec_entry_of(bytes) == e,
{
    let e0 = choose|e0: CompressedSubscriptionEntry| entry_matches_bytes(e0, bytes);
    lemma_entry_bytes_unique(e0, e, bytes);
}

/// A byte string encodes at most one entry.
pub proof fn lemma_entry_bytes_unique(
    e1: CompressedSubscriptionEntry,
    e2: CompressedSubscriptionEntry,
    bytes: Seq<u8>,
)
    requires
        entry_matches_bytes(e1, bytes),
        entry_matches_bytes(e2, bytes),
    ensures
        e1 == e2,
{
    assert(e1.public_key =~= e2.public_key);
    assert(e1.depths =~= e2.depths);
    assert forall|j: int| 0 <= j < 128 implies e1.node_keys@[j] == e2.node_keys@[j] by {
        assert((#[trigger] e1.node_keys@[j])@ == (#[trigger] e2.node_keys@[j])@);
        assert(e1.node_keys@[j] =~= e2.node_keys@[j]);
    }
    assert(e1.node_keys =~= e2.node_keys);
}

/// Copies a 32-byte slice into an array.
pub(crate) fn read_key_bytes(src: &[u8]) -> (out: [u8; 32])
    requires
        src@.len() == 32,
    ensures
        out@ == src@,
{
    let mut out = [0u8; 32];
    let mut i: usize = 0;
    while i < 32
        invariant
            0 <= i <= 32,
            src@.len() == 32,
            forall|k: int| 0 <= k < i ==> out@[k] == src@[k],
        decreases 32 - i,
    {
        out[i] = src[i];
        i += 1;
    }
    assert(out@ =~= src@);
    out
}

/// Copies a 128-byte slice into an array.
fn read_depth_bytes(src: &[u8]) -> (out: [u8; 128])
    requires
        src@.len() == 128,
    ensures
        out@ == src@,
{
    let mut out = [0u8; 128];
    let mut i: usize = 0;
    while i < 128
        invariant
            0 <= i <= 128,
            src@.len() == 128,
            forall|k: int| 0 <= k < i ==> out@[k] == src@[k],
        decreases 128 - i,
    {
        out[i] = src[i];
        i += 1;
    }
    assert(out@ =~= src@);
    out
}

/// Encodes an entry into its persisted byte form.
pub fn encode_entry(e: &CompressedSubscriptionEntry) -> (out: Vec<u8>)
    ensures
        out@ == spec_entry_bytes(*e),
        out@.len() == ENTRY_SIZE,
        entry_matches_bytes(*e, out@),
{
    let mut out: Vec<u8> = Vec::new();
    out.extend_from_slice(self_slice(&e.public_key));
    let start_bytes = u64_to_le_bytes(e.start_time);
    out.extend_from_slice(start_bytes.as_slice());
    let channel_bytes = u32_to_le_bytes(e.channel_id);
    out.extend_from_slice(channel_bytes.as_slice());
    let count_bytes = u32_to_le_bytes(e.subtree_count);
    out.extend_from_slice(count_bytes.as_slice());
    out.extend_from_slice(e.depths.as_slice());

    let ghost prefix = out@;
    let mut j: usize = 0;
    while j < 128
        invariant
            0 <= j <= 128,
            out@ == prefix + flat_keys_prefix(e.node_keys@, j as int),
        decreases 128 - j,
    {
        out.extend_from_slice(self_slice(&e.node_keys[j]));
        assert(out@ == prefix + flat_keys_prefix(e.node_keys@, j + 1));
        j += 1;
    }
    proof {
        lemma_entry_bytes_roundtrip(*e);
        assert(out@ =~= spec_entry_bytes(*e));
    }
    out
}

/// Views a 32-byte array as a slice.
fn self_slice(a: &[u8; 32]) -> (out: &[u8])
    ensures
        out@ == a@,
{
    a.as_slice()
}

/// Decodes an entry from its persisted byte form.
pub fn decode_entry(bytes: &[u8]) -> (e: CompressedSubscriptionEntry)
    requires
        bytes@.len() == ENTRY_SIZE,
    ensures
        entry_matches_bytes(e, bytes@),
{
    let public_key = read_key_bytes(slice_subrange(bytes, 0, START_TIME_OFFSET));
    let start_time = u64_from_le_bytes(slice_subrange(bytes, START_TIME_OFFSET, CHANNEL_ID_OFFSET));
    let channel_id = u32_from_le_bytes(slice_subrange(bytes, CHANNEL_ID_OFFSET, SUBTREE_COUNT_OFFSET));
    let subtree_count = u32_from_le_bytes(slice_subrange(bytes, SUBTREE_COUNT_OFFSET, DEPTHS_OFFSET));
    let depths = read_depth_bytes(slice_subrange(bytes, DEPTHS_OFFSET, NODE_KEYS_OFFSET));

    let mut node_keys = [[0u8; 32]; 128];
    let mut j: usize = 0;
    while j < 128
        invariant
            0 <= j <= 128,
            bytes@.len() == ENTRY_SIZE,
            forall|k: int|
                0 <= k < j ==> (#[trigger] node_keys@[k])@ == bytes@.subrange(
                    NODE_KEYS_OFFSET + 32 * k,
                    NODE_KEYS_OFFSET + 32 * k + 32,
                ),
        decreases 128 - j,
    {
        let key = read_key_bytes(slice_subrange(bytes, NODE_KEYS_OFFSET + 32 * j, NODE_KEYS_OFFSET + 32 * j + 32));
        node_keys[j] = key;
        j += 1;
    }

    CompressedSubscriptionEntry { public_key, start_time, channel_id, subtree_count, depths, node_keys }
}

} // verus!
