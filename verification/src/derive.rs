//! Per-timestamp key derivation from a compressed subscription, with the
//! channel cache that amortizes the walk across nearby timestamps.
//!
//! The cache is a root-to-leaf path of recently visited subtree nodes.  On
//! a hit it is truncated to the deepest entry that still covers the
//! timestamp and the walk resumes there; on a miss it is cleared and the
//! walk starts from the subscription's covering subtree.  Either way the
//! derived key is a function of the subscription and the timestamp alone
//! ([`spec_frame_key`]): the cache is observationally a no-op.

use vstd::prelude::*;

use crate::errors::DecoderError;
use crate::keytree::{
    derive_from_subtree, descends, is_child, leaf_key, lemma_child_descends, lemma_descends_trans,
    lemma_leaf_key_agrees, KeySubtree,
};
use crate::subscription::{lemma_interval_lo_grows, lemma_subtree_unique, CompressedSubscriptionEntry};

verus! {

/// Cached information about a channel to speed up decoding.
pub struct ChannelCache {
    /// Verifying key for frames on this channel, as stored in the
    /// subscription.
    pub public_key: [u8; 32],
    /// Caches the last used key for each level in the channel key tree.
    ///
    /// Timestamps close together share most of their path, so the cache
    /// saves recomputing it; the first entry is the largest region and each
    /// following entry a child of the one before.
    pub cache_entries: Vec<KeySubtree>,
}

impl ChannelCache {
    /// A fresh, empty cache for a channel with the given verifying key.
    pub fn new(public_key: &[u8; 32]) -> (c: ChannelCache)
        ensures
            c.public_key == *public_key,
            c.cache_entries@ == Seq::<KeySubtree>::empty(),
    {
        let c = ChannelCache { public_key: *public_key, cache_entries: Vec::new() };
        proof {
            assert(c.cache_entries@ =~= Seq::<KeySubtree>::empty());
        }
        c
    }
}

/// The cache invariant: the entries form a derivation chain, each a direct
/// derived child of the one before, and the first entry derives from one of
/// the subscription's own subtrees.
pub open spec fn cache_valid(entries: Seq<KeySubtree>, e: CompressedSubscriptionEntry) -> bool {
    &&& forall|j: int|
        0 <= j && j + 1 < entries.len() ==> is_child(#[trigger] entries[j + 1], entries[j])
    &&& entries.len() > 0 ==> exists|i: int|
        0 <= i < e.subtree_count && descends(#[trigger] e.spec_subtree(i), entries[0])
}

/// Every entry of a valid chain descends from the head of the chain.
pub proof fn lemma_chain_descends(entries: Seq<KeySubtree>, j: int)
    requires
        forall|k: int|
            0 <= k && k + 1 < entries.len() ==> is_child(#[trigger] entries[k + 1], entries[k]),
        0 <= j < entries.len(),
    ensures
        descends(entries[0], entries[j]),
    decreases j,
{
    if j == 0 {
        assert(descends(entries[0], entries[0]));
    } else {
        lemma_chain_descends(entries, j - 1);
        assert(is_child(entries[(j - 1) + 1], entries[j - 1]));
        lemma_child_descends(entries[j], entries[j - 1]);
        lemma_descends_trans(entries[0], entries[j - 1], entries[j]);
    }
}

/// The key the tree assigns to `t` under subscription `e`: the leaf key
/// below the (unique) subtree of `e` that covers `t`.
pub open spec fn spec_frame_key(e: CompressedSubscriptionEntry, t: u64) -> Seq<u8> {
    let i = choose|i: int|
        0 <= i < e.subtree_count && (#[trigger] e.spec_subtree(i)).spec_contains(t);
    leaf_key(e.spec_subtree(i), t)
}

/// The frame key equals the leaf key below any covering subtree: covering
/// subtrees are unique.
pub proof fn lemma_frame_key_value(e: CompressedSubscriptionEntry, i: int, t: u64)
    requires
        e.wf(),
        0 <= i < e.subtree_count,
        e.spec_subtree(i).spec_contains(t),
    ensures
        spec_frame_key(e, t) == leaf_key(e.spec_subtree(i), t),
{
    let i0 = choose|i0: int|
        0 <= i0 < e.subtree_count && (#[trigger] e.spec_subtree(i0)).spec_contains(t);
    lemma_subtree_unique(e, i0, i, t);
}

/// Key-tree round trip: deriving the key for `t` from the compressed
/// subscription yields exactly the leaf key obtained by walking the
/// derivation rule down from any ancestor node of the covering subtree —
/// in particular from a single full-range root whose descendants the
/// compressed form stores.
pub proof fn lemma_key_tree_round_trip(
    e: CompressedSubscriptionEntry,
    anc: KeySubtree,
    i: int,
    t: u64,
)
    requires
        e.wf(),
        0 <= i < e.subtree_count,
        descends(anc, e.spec_subtree(i)),
        e.spec_subtree(i).spec_contains(t),
    ensures
        spec_frame_key(e, t) == leaf_key(anc, t),
{
    lemma_frame_key_value(e, i, t);
    lemma_leaf_key_agrees(anc, e.spec_subtree(i), t);
}

/// A covering subtree puts the timestamp inside the subscription interval.
proof fn lemma_contains_in_range(e: CompressedSubscriptionEntry, i: int, t: u64)
    requires
        e.wf(),
        0 <= i < e.subtree_count,
        e.spec_subtree(i).spec_contains(t),
    ensures
        e.spec_in_range(t),
{
    crate::subscription::lemma_interval_lo_bounds(e, i);
    lemma_interval_lo_grows(e.start_time, e.depths@, 0, i);
    lemma_interval_lo_grows(e.start_time, e.depths@, i + 1, e.subtree_count as int);
}

/// Derives a symmetric key for the given `timestamp` using subscription data.
///
/// This walks the GGM key tree: from the deepest cached node that still
/// covers `timestamp` if the cache root covers it, otherwise from the
/// subscription's covering subtree with the cache cleared.  The key
/// returned is [`spec_frame_key`] of the subscription and timestamp alone,
/// whatever the cache held — the cache only saves work (cache
/// transparency).  Fails exactly when no subtree covers the timestamp.
pub fn derive_decoder_key_for_timestamp(
    subscription: &CompressedSubscriptionEntry,
    cache: &mut ChannelCache,
    timestamp: u64,
) -> (r: Result<[u8; 32], DecoderError>)
    requires
        subscription.wf(),
        cache_valid(old(cache).cache_entries@, *subscription),
    ensures
        final(cache).public_key == old(cache).public_key,
        cache_valid(final(cache).cache_entries@, *subscription),
        r is Ok <==> subscription.spec_in_range(timestamp),
        r matches Ok(k) ==> k@ == spec_frame_key(*subscription, timestamp),
        r is Err ==> r == Err::<[u8; 32], DecoderError>(DecoderError::NoTimestampFound),
{
    let entries_len = cache.cache_entries.len();
    let subtree: KeySubtree;
    let ghost root_index: int;
    if entries_len > 0 && cache.cache_entries[0].contains(timestamp) {
        // search from the deep end of the cache for the first node that
        // still covers the timestamp
        let mut i: usize = entries_len - 1;
        while !cache.cache_entries[i].contains(timestamp)
            invariant
                0 <= i < entries_len,
                entries_len == cache.cache_entries@.len(),
                cache.cache_entries@[0].spec_contains(timestamp),
                cache == old(cache),
            decreases i,
        {
            i = i - 1;
        }
        subtree = cache.cache_entries[i];

        // clear everything after the match since it will be overwritten
        cache.cache_entries.truncate(i + 1);

        proof {
            root_index = choose|ri: int|
                0 <= ri < subscription.subtree_count && descends(
                    #[trigger] subscription.spec_subtree(ri),
                    old(cache).cache_entries@[0],
                );
            lemma_chain_descends(old(cache).cache_entries@, i as int);
            lemma_descends_trans(
                subscription.spec_subtree(root_index),
                old(cache).cache_entries@[0],
                subtree,
            );
            lemma_leaf_key_agrees(subscription.spec_subtree(root_index), subtree, timestamp);
            lemma_contains_in_range(*subscription, root_index, timestamp);
        }
    } else {
        // the whole cache is stale: clear it and locate the subtree root
        // containing the timestamp from the subscription data
        cache.cache_entries.clear();

        match subscription.get_subtree(timestamp) {
            Some(found) => {
                subtree = found;
                proof {
                    root_index = choose|ri: int|
                        0 <= ri < subscription.subtree_count && subtree
                            == #[trigger] subscription.spec_subtree(ri) && subtree.spec_contains(
                            timestamp,
                        );
                    assert(descends(subscription.spec_subtree(root_index), subtree));
                }
            },
            None => {
                return Err(DecoderError::NoTimestampFound);
            },
        }
    }

    let ghost prefix = cache.cache_entries@;
    let key = derive_from_subtree(&subtree, timestamp, &mut cache.cache_entries);

    proof {
        // the returned key is the leaf key below the covering subtree
        lemma_leaf_key_agrees(subscription.spec_subtree(root_index), subtree, timestamp);
        lemma_frame_key_value(*subscription, root_index, timestamp);
        lemma_contains_in_range(*subscription, root_index, timestamp);

        // the rebuilt cache is again a valid chain rooted in the subscription
        let entries = cache.cache_entries@;
        assert forall|j: int| 0 <= j && j + 1 < entries.len() implies is_child(
            #[trigger] entries[j + 1],
            entries[j],
        ) by {
            if j + 1 < prefix.len() {
                assert(entries[j] == prefix[j] && entries[j + 1] == prefix[j + 1]);
            } else if j + 1 == prefix.len() {
                // crossing from the kept prefix into the appended path:
                // the first appended node is a child of `subtree`, which is
                // the last kept entry
                assert(entries[j] == prefix[j]);
                assert(prefix[prefix.len() - 1] == subtree);
            }
        }
        if entries.len() > 0 {
            if prefix.len() > 0 {
                assert(entries[0] == prefix[0]);
                assert(descends(subscription.spec_subtree(root_index), entries[0]));
            } else {
                assert(is_child(entries[0], subtree));
                lemma_child_descends(entries[0], subtree);
                lemma_descends_trans(
                    subscription.spec_subtree(root_index),
                    subtree,
                    entries[0],
                );
            }
        }
    }
    Ok(key)
}

} // verus!
