//! The GGM key tree: derivation from ancestors and descendants agrees,
//! the cache is observationally a no-op, and subscriptions resolve
//! subtrees and bounds correctly.

use decoder::crypto::compute_chacha_block;
use decoder::derive::{derive_decoder_key_for_timestamp, ChannelCache};
use decoder::errors::DecoderError;
use decoder::keytree::{derive_from_subtree, KeySubtree};
use decoder::subscription::CompressedSubscriptionEntry;

fn left_child(node: &KeySubtree) -> KeySubtree {
    let block = compute_chacha_block(&node.key);
    let mid = node.lowest_timestamp + ((node.highest_timestamp - node.lowest_timestamp) >> 1);
    let mut key = [0u8; 32];
    key.copy_from_slice(&block[..32]);
    KeySubtree { lowest_timestamp: node.lowest_timestamp, highest_timestamp: mid, key }
}

fn right_child(node: &KeySubtree) -> KeySubtree {
    let block = compute_chacha_block(&node.key);
    let mid = node.lowest_timestamp + ((node.highest_timestamp - node.lowest_timestamp) >> 1);
    let mut key = [0u8; 32];
    key.copy_from_slice(&block[32..]);
    KeySubtree { lowest_timestamp: mid + 1, highest_timestamp: node.highest_timestamp, key }
}

fn entry_with(start_time: u64, depths: &[u8], keys: &[[u8; 32]]) -> CompressedSubscriptionEntry {
    let mut entry = CompressedSubscriptionEntry {
        public_key: [0u8; 32],
        start_time,
        channel_id: 3,
        subtree_count: depths.len() as u32,
        depths: [0u8; 128],
        node_keys: [[0u8; 32]; 128],
    };
    entry.depths[..depths.len()].copy_from_slice(depths);
    entry.node_keys[..keys.len()].copy_from_slice(keys);
    entry
}

#[test]
fn chacha_block_differs_from_seed() {
    // the expansion really computes something: neither half repeats the
    // seed, and the halves differ
    let seed = [0u8; 32];
    let block = compute_chacha_block(&seed);
    assert_ne!(&block[..32], &seed[..]);
    assert_ne!(&block[32..], &seed[..]);
    assert_ne!(&block[..32], &block[32..]);
}

#[test]
fn derivation_agrees_with_ancestor() {
    // walking down from a node and from its children gives the same leaf
    // keys — the concrete face of the round-trip law
    let root = KeySubtree { lowest_timestamp: 64, highest_timestamp: 95, key: [3u8; 32] };
    let left = left_child(&root);
    let right = right_child(&root);
    assert_eq!(left.highest_timestamp, 79);
    assert_eq!(right.lowest_timestamp, 80);

    for t in [64u64, 70, 79] {
        let mut c1 = Vec::new();
        let mut c2 = Vec::new();
        assert_eq!(
            derive_from_subtree(&root, t, &mut c1),
            derive_from_subtree(&left, t, &mut c2)
        );
    }
    for t in [80u64, 88, 95] {
        let mut c1 = Vec::new();
        let mut c2 = Vec::new();
        assert_eq!(
            derive_from_subtree(&root, t, &mut c2),
            derive_from_subtree(&right, t, &mut c1)
        );
    }
}

#[test]
fn derivation_leaf_is_node_key() {
    let leaf = KeySubtree { lowest_timestamp: 5, highest_timestamp: 5, key: [9u8; 32] };
    let mut cache = Vec::new();
    assert_eq!(derive_from_subtree(&leaf, 5, &mut cache), [9u8; 32]);
    assert!(cache.is_empty());
}

#[test]
fn derivation_fills_cache_path() {
    let root = KeySubtree { lowest_timestamp: 0, highest_timestamp: 15, key: [1u8; 32] };
    let mut cache = Vec::new();
    let key = derive_from_subtree(&root, 6, &mut cache);
    // four levels below a 16-leaf subtree
    assert_eq!(cache.len(), 4);
    let last = cache.last().unwrap();
    assert_eq!(last.lowest_timestamp, 6);
    assert_eq!(last.highest_timestamp, 6);
    assert_eq!(last.key, key);
    for node in &cache {
        assert!(node.lowest_timestamp <= 6 && 6 <= node.highest_timestamp);
    }
}

#[test]
fn cache_transparency() {
    // any access sequence gives the same keys as deriving each timestamp
    // from scratch
    let entry = entry_with(1000, &[54u8], &[[17u8; 32]]);
    let sequence = [1000u64, 1001, 1500, 1001, 2023, 1000, 2000];

    let mut warm = ChannelCache { public_key: [0u8; 32], cache_entries: Vec::new() };
    let mut warm_keys = Vec::new();
    for &t in sequence.iter() {
        warm_keys.push(derive_decoder_key_for_timestamp(&entry, &mut warm, t).unwrap());
    }

    let mut cold_keys = Vec::new();
    for &t in sequence.iter() {
        let mut cold = ChannelCache { public_key: [0u8; 32], cache_entries: Vec::new() };
        cold_keys.push(derive_decoder_key_for_timestamp(&entry, &mut cold, t).unwrap());
    }

    assert_eq!(warm_keys, cold_keys);
}

#[test]
fn derive_outside_subtrees_fails() {
    let entry = entry_with(1000, &[54u8], &[[17u8; 32]]);
    let mut cache = ChannelCache { public_key: [0u8; 32], cache_entries: Vec::new() };
    let err = derive_decoder_key_for_timestamp(&entry, &mut cache, 999).unwrap_err();
    assert_eq!(err, DecoderError::NoTimestampFound);
    let err = derive_decoder_key_for_timestamp(&entry, &mut cache, 2024).unwrap_err();
    assert_eq!(err, DecoderError::NoTimestampFound);
}

#[test]
fn get_subtree_picks_covering_interval() {
    // [100,163], [164,195], [196,199]
    let entry = entry_with(100, &[58u8, 59, 62], &[[1u8; 32], [2u8; 32], [3u8; 32]]);
    assert_eq!(entry.end_time(), 199);

    let node = entry.get_subtree(150).expect("inside the first subtree");
    assert_eq!((node.lowest_timestamp, node.highest_timestamp), (100, 163));
    assert_eq!(node.key, [1u8; 32]);

    let node = entry.get_subtree(164).expect("first leaf of the second subtree");
    assert_eq!((node.lowest_timestamp, node.highest_timestamp), (164, 195));

    let node = entry.get_subtree(199).expect("last leaf of the last subtree");
    assert_eq!((node.lowest_timestamp, node.highest_timestamp), (196, 199));
    assert_eq!(node.key, [3u8; 32]);

    assert!(entry.get_subtree(99).is_none());
    assert!(entry.get_subtree(200).is_none());
}

#[test]
fn full_range_subscription_bounds() {
    // a single depth-0 subtree covers the entire timestamp space
    let entry = entry_with(0, &[0u8], &[[4u8; 32]]);
    assert!(entry.check_wf());
    assert_eq!(entry.end_time(), u64::MAX);

    let node = entry.get_subtree(u64::MAX).expect("top of the space is covered");
    assert_eq!((node.lowest_timestamp, node.highest_timestamp), (0, u64::MAX));

    // and keys derive at both extremes
    let mut cache = ChannelCache { public_key: [0u8; 32], cache_entries: Vec::new() };
    assert!(derive_decoder_key_for_timestamp(&entry, &mut cache, 0).is_ok());
    assert!(derive_decoder_key_for_timestamp(&entry, &mut cache, u64::MAX).is_ok());
}

#[test]
fn check_wf_rejects_bad_shapes() {
    // zero subtrees
    assert!(!entry_with(0, &[], &[]).check_wf());
    // a depth above the tree's own depth
    assert!(!entry_with(0, &[65u8], &[[0u8; 32]]).check_wf());
    // a walk that leaves the timestamp space
    assert!(!entry_with(1, &[0u8], &[[0u8; 32]]).check_wf());
    assert!(!entry_with(0, &[0u8, 0u8], &[[0u8; 32], [1u8; 32]]).check_wf());
    // the last leaf exactly at the top of the space is fine
    assert!(entry_with(u64::MAX, &[64u8], &[[0u8; 32]]).check_wf());
}

#[test]
fn contains_is_interval_membership() {
    let node = KeySubtree { lowest_timestamp: 10, highest_timestamp: 20, key: [0u8; 32] };
    assert!(node.contains(10));
    assert!(node.contains(15));
    assert!(node.contains(20));
    assert!(!node.contains(9));
    assert!(!node.contains(21));
}
