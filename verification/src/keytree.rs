//! The GGM key tree: a perfect binary tree of depth 64 whose leaves are
//! indexed by 64-bit timestamps.  An interior node carries a 32-byte secret
//! and covers a contiguous timestamp interval; expanding the secret into one
//! ChaCha20 block yields the secrets of its two children, which split the
//! interval in half.  The key for a timestamp is the secret of the leaf that
//! covers exactly that timestamp.

use vstd::prelude::*;

use crate::crypto::{chacha_block_of, compute_chacha_block};

verus! {

/// Represents information about one internal node in the key tree for a channel.
#[derive(Debug, Clone, Copy)]
pub struct KeySubtree {
    /// The lowest timestamp that this subtree can provide
    pub lowest_timestamp: u64,
    /// The highest timestamp that this subtree can provide
    pub highest_timestamp: u64,
    /// Value of internal node used to derive keys
    pub key: [u8; 32],
}

/// The midpoint at which a node covering `[lo, hi]` splits: its left child
/// covers `[lo, mid]`, its right child `[mid + 1, hi]`.
pub open spec fn split_point(lo: u64, hi: u64) -> u64 {
    (lo + (hi - lo) / 2) as u64
}

/// The secret of the left child of a node whose secret is `key`.
pub open spec fn left_key_of(key: Seq<u8>) -> Seq<u8> {
    chacha_block_of(key).subrange(0, 32)
}

/// The secret of the right child of a node whose secret is `key`.
pub open spec fn right_key_of(key: Seq<u8>) -> Seq<u8> {
    chacha_block_of(key).subrange(32, 64)
}

/// The key of the leaf for timestamp `t`, obtained by walking down from the
/// node that covers `[lo, hi]` with secret `key`, always descending into the
/// half that contains `t`.
pub open spec fn leaf_key_from(lo: u64, hi: u64, key: Seq<u8>, t: u64) -> Seq<u8>
    recommends
        lo <= t <= hi,
    decreases hi - lo,
{
    if lo >= hi {
        key
    } else if t <= split_point(lo, hi) {
        leaf_key_from(lo, split_point(lo, hi), left_key_of(key), t)
    } else {
        leaf_key_from((split_point(lo, hi) + 1) as u64, hi, right_key_of(key), t)
    }
}

/// The key that the tree assigns to timestamp `t` below `node`.
pub open spec fn leaf_key(node: KeySubtree, t: u64) -> Seq<u8> {
    leaf_key_from(node.lowest_timestamp, node.highest_timestamp, node.key@, t)
}

/// Whether the node `(nlo, nhi, nkey)` is obtained from the node
/// `(alo, ahi, akey)` by zero or more applications of the derivation rule.
pub open spec fn descends_from(alo: u64, ahi: u64, akey: Seq<u8>, nlo: u64, nhi: u64, nkey: Seq<u8>) -> bool
    decreases ahi - alo,
{
    ||| (alo == nlo && ahi == nhi && akey == nkey)
    ||| (alo < ahi && {
        ||| descends_from(alo, split_point(alo, ahi), left_key_of(akey), nlo, nhi, nkey)
        ||| descends_from((split_point(alo, ahi) + 1) as u64, ahi, right_key_of(akey), nlo, nhi, nkey)
    })
}

/// Whether `node` is a (not necessarily proper) derived descendant of `anc`.
pub open spec fn descends(anc: KeySubtree, node: KeySubtree) -> bool {
    descends_from(
        anc.lowest_timestamp,
        anc.highest_timestamp,
        anc.key@,
        node.lowest_timestamp,
        node.highest_timestamp,
        node.key@,
    )
}

/// Whether `c` is a direct derived child of `p`.
pub open spec fn is_child(c: KeySubtree, p: KeySubtree) -> bool {
    p.lowest_timestamp < p.highest_timestamp && {
        ||| (c.lowest_timestamp == p.lowest_timestamp
            && c.highest_timestamp == split_point(p.lowest_timestamp, p.highest_timestamp)
            && c.key@ == left_key_of(p.key@))
        ||| (c.lowest_timestamp == split_point(p.lowest_timestamp, p.highest_timestamp) + 1
            && c.highest_timestamp == p.highest_timestamp
            && c.key@ == right_key_of(p.key@))
    }
}

impl KeySubtree {
    /// The closed interval of timestamps this subtree covers.
    pub open spec fn spec_contains(self, timestamp: u64) -> bool {
        self.lowest_timestamp <= timestamp <= self.highest_timestamp
    }

    /// Checks if the leaf key node corresponding to `timestamp` lies within this subtree.
    pub fn contains(&self, timestamp: u64) -> (r: bool)
        ensures
            r == self.spec_contains(timestamp),
    {
        self.lowest_timestamp <= timestamp && timestamp <= self.highest_timestamp
    }
}

/// A direct derived child is a derived descendant.
pub proof fn lemma_child_descends(c: KeySubtree, p: KeySubtree)
    requires
        is_child(c, p),
    ensures
        descends(p, c),
{
    let m = split_point(p.lowest_timestamp, p.highest_timestamp);
    if c.lowest_timestamp == p.lowest_timestamp {
        assert(descends_from(
            p.lowest_timestamp, m, left_key_of(p.key@),
            c.lowest_timestamp, c.highest_timestamp, c.key@,
        ));
    } else {
        assert(descends_from(
            (m + 1) as u64, p.highest_timestamp, right_key_of(p.key@),
            c.lowest_timestamp, c.highest_timestamp, c.key@,
        ));
    }
}

/// Derived descent is transitive.
pub proof fn lemma_descends_from_trans(
    alo: u64, ahi: u64, akey: Seq<u8>,
    blo: u64, bhi: u64, bkey: Seq<u8>,
    clo: u64, chi: u64, ckey: Seq<u8>,
)
    requires
        descends_from(alo, ahi, akey, blo, bhi, bkey),
        descends_from(blo, bhi, bkey, clo, chi, ckey),
    ensures
        descends_from(alo, ahi, akey, clo, chi, ckey),
    decreases ahi - alo,
{
    if alo == blo && ahi == bhi && akey == bkey {
    } else {
        let m = split_point(alo, ahi);
        if descends_from(alo, m, left_key_of(akey), blo, bhi, bkey) {
            lemma_descends_from_trans(alo, m, left_key_of(akey), blo, bhi, bkey, clo, chi, ckey);
        } else {
            lemma_descends_from_trans((m + 1) as u64, ahi, right_key_of(akey), blo, bhi, bkey, clo, chi, ckey);
        }
    }
}

/// Derived descent is transitive (node form).
pub proof fn lemma_descends_trans(a: KeySubtree, b: KeySubtree, c: KeySubtree)
    requires
        descends(a, b),
        descends(b, c),
    ensures
        descends(a, c),
{
    lemma_descends_from_trans(
        a.lowest_timestamp, a.highest_timestamp, a.key@,
        b.lowest_timestamp, b.highest_timestamp, b.key@,
        c.lowest_timestamp, c.highest_timestamp, c.key@,
    );
}

/// A derived descendant covers a sub-interval of its ancestor, and walking
/// the derivation rule down to any timestamp the descendant covers yields the
/// same leaf key whether the walk starts at the ancestor or at the
/// descendant.
pub proof fn lemma_leaf_key_from_ancestor(
    alo: u64, ahi: u64, akey: Seq<u8>,
    nlo: u64, nhi: u64, nkey: Seq<u8>,
    t: u64,
)
    requires
        descends_from(alo, ahi, akey, nlo, nhi, nkey),
        nlo <= t <= nhi,
    ensures
        alo <= nlo && nhi <= ahi,
        leaf_key_from(nlo, nhi, nkey, t) == leaf_key_from(alo, ahi, akey, t),
    decreases ahi - alo,
{
    if alo == nlo && ahi == nhi && akey == nkey {
    } else {
        let m = split_point(alo, ahi);
        if descends_from(alo, m, left_key_of(akey), nlo, nhi, nkey) {
            lemma_leaf_key_from_ancestor(alo, m, left_key_of(akey), nlo, nhi, nkey, t);
        } else {
            lemma_leaf_key_from_ancestor((m + 1) as u64, ahi, right_key_of(akey), nlo, nhi, nkey, t);
        }
    }
}

/// The node form of [`lemma_leaf_key_from_ancestor`]: any derived descendant
/// of `anc` that still covers `t` derives the same key for `t` as `anc` does.
pub proof fn lemma_leaf_key_agrees(anc: KeySubtree, node: KeySubtree, t: u64)
    requires
        descends(anc, node),
        node.spec_contains(t),
    ensures
        anc.spec_contains(t),
        leaf_key(node, t) == leaf_key(anc, t),
{
    lemma_leaf_key_from_ancestor(
        anc.lowest_timestamp, anc.highest_timestamp, anc.key@,
        node.lowest_timestamp, node.highest_timestamp, node.key@,
        t,
    );
}

/// Copies one half of an expanded ChaCha20 block.
fn block_half(block: &[u8; 64], upper: bool) -> (half: [u8; 32])
    ensures
        !upper ==> half@ == block@.subrange(0, 32),
        upper ==> half@ == block@.subrange(32, 64),
{
    let mut half = [0u8; 32];
    let offset: usize = if upper { 32 } else { 0 };
    let mut i: usize = 0;
    while i < 32
        invariant
            0 <= i <= 32,
            offset == 0 || offset == 32,
            half@.subrange(0, i as int) == block@.subrange(offset as int, offset + i),
        decreases 32 - i,
    {
        half[i] = block[offset + i];
        assert(half@.subrange(0, i + 1) == block@.subrange(offset as int, offset + i + 1));
        i += 1;
    }
    assert(half@ == half@.subrange(0, 32));
    half
}

/// Walks the derivation rule down from `subtree` to the leaf for
/// `timestamp`, pushing every node visited on the way onto `cache`.
///
/// The pushed nodes extend `cache` with the strict root-to-leaf path below
/// `subtree`: each is the direct derived child of its predecessor, each
/// covers `timestamp`, and the last one is the leaf itself.
pub fn derive_from_subtree(subtree: &KeySubtree, timestamp: u64, cache: &mut Vec<KeySubtree>) -> (key: [u8; 32])
    requires
        subtree.spec_contains(timestamp),
    ensures
        key@ == leaf_key(*subtree, timestamp),
        final(cache)@.len() >= old(cache)@.len(),
        final(cache)@.subrange(0, old(cache)@.len() as int) == old(cache)@,
        forall|j: int|
            old(cache)@.len() <= j < final(cache)@.len()
                ==> (#[trigger] final(cache)@[j]).spec_contains(timestamp) && descends(*subtree, final(cache)@[j]),
        forall|j: int|
            old(cache)@.len() <= j && j + 1 < final(cache)@.len()
                ==> is_child(#[trigger] final(cache)@[j + 1], final(cache)@[j]),
        final(cache)@.len() > old(cache)@.len() ==> is_child(
            final(cache)@[old(cache)@.len() as int],
            *subtree,
        ),
        subtree.lowest_timestamp == subtree.highest_timestamp ==> final(cache)@ == old(cache)@,
        subtree.lowest_timestamp < subtree.highest_timestamp ==> {
            &&& final(cache)@.len() > old(cache)@.len()
            &&& final(cache)@.last().lowest_timestamp == timestamp
            &&& final(cache)@.last().highest_timestamp == timestamp
            &&& final(cache)@.last().key@ == key@
        },
{
    let ghost original = cache@;
    let mut current = *subtree;
    while current.lowest_timestamp != current.highest_timestamp
        invariant
            current.spec_contains(timestamp),
            descends(*subtree, current),
            leaf_key(current, timestamp) == leaf_key(*subtree, timestamp),
            cache@.len() >= original.len(),
            cache@.subrange(0, original.len() as int) == original,
            forall|j: int|
                original.len() <= j < cache@.len()
                    ==> (#[trigger] cache@[j]).spec_contains(timestamp) && descends(*subtree, cache@[j]),
            forall|j: int|
                original.len() <= j && j + 1 < cache@.len()
                    ==> is_child(#[trigger] cache@[j + 1], cache@[j]),
            cache@.len() > original.len() ==> is_child(cache@[original.len() as int], *subtree),
            cache@.len() == original.len() ==> current == *subtree,
            cache@.len() > original.len() ==> cache@.last() == current,
        decreases current.highest_timestamp - current.lowest_timestamp,
    {
        let expanded = compute_chacha_block(&current.key);

        // can't do (upper + lower) / 2 because this could integer overflow
        let region_size = current.highest_timestamp - current.lowest_timestamp;
        let half = region_size >> 1;
        assert(region_size >> 1 == region_size / 2) by (bit_vector);
        let lower_midsection = current.lowest_timestamp + half;
        let upper_midsection = lower_midsection + 1;

        let ghost previous = current;
        if timestamp <= lower_midsection {
            current = KeySubtree {
                lowest_timestamp: current.lowest_timestamp,
                highest_timestamp: lower_midsection,
                key: block_half(&expanded, false),
            };
        } else {
            current = KeySubtree {
                lowest_timestamp: upper_midsection,
                highest_timestamp: current.highest_timestamp,
                key: block_half(&expanded, true),
            };
        }
        proof {
            assert(is_child(current, previous));
            lemma_child_descends(current, previous);
            lemma_descends_trans(*subtree, previous, current);
        }
        cache.push(current);
    }
    current.key
}

} // verus!
