//! The compressed, persisted form of a channel subscription.
//!
//! A subscription covers a contiguous timestamp interval with a list of key
//! subtrees.  Only the depth of each subtree is stored: together with the
//! start time, the depths determine every subtree's interval, in order of
//! increasing timestamp and without gap or overlap.

use vstd::arithmetic::power2::{lemma2_to64, lemma2_to64_rest, lemma_pow2_pos, pow2};
use vstd::bits::{lemma_u64_pow2_no_overflow, lemma_u64_shl_is_mul};
use vstd::prelude::*;

use crate::keytree::KeySubtree;

verus! {

/// The largest number of key subtrees a subscription can carry.
pub const MAX_SUBTREES: u32 = 128;

/// Data stored on flash for each subscription.
#[derive(Debug, Clone, Copy)]
pub struct CompressedSubscriptionEntry {
    /// Public key for channel
    pub public_key: [u8; 32],
    /// Start of subscription (inclusive)
    pub start_time: u64,
    /// Channel id subscription is for
    pub channel_id: u32,
    /// Number of key subtrees used for deriving frame keys
    pub subtree_count: u32,
    /// List of depths for each subtree. With start_time, we can derive start+end for every subtree with this
    pub depths: [u8; 128],
    /// List of keys for each subtree
    pub node_keys: [[u8; 32]; 128],
}

/// The number of timestamps covered by a subtree whose root sits at `depth`
/// in the full tree: the full tree has depth 64, so the subtree has
/// `2^(64 - depth)` leaves.
pub open spec fn subtree_span(depth: u8) -> int {
    pow2((64 - depth) as nat) as int
}

/// The lowest timestamp (as a mathematical integer) of subtree `i`, obtained
/// by walking the spans of the subtrees before it.
pub open spec fn spec_interval_lo(start: u64, depths: Seq<u8>, i: int) -> int
    decreases i,
{
    if i <= 0 {
        start as int
    } else {
        spec_interval_lo(start, depths, i - 1) + subtree_span(depths[i - 1])
    }
}

impl CompressedSubscriptionEntry {
    /// The lowest timestamp of subtree `i`.
    pub open spec fn spec_lo(self, i: int) -> int {
        spec_interval_lo(self.start_time, self.depths@, i)
    }

    /// The inclusive end of the whole subscription.
    pub open spec fn spec_end(self) -> int {
        self.spec_lo(self.subtree_count as int) - 1
    }

    /// Subtree `i` as a key-tree node.
    pub open spec fn spec_subtree(self, i: int) -> KeySubtree {
        KeySubtree {
            lowest_timestamp: self.spec_lo(i) as u64,
            highest_timestamp: (self.spec_lo(i + 1) - 1) as u64,
            key: self.node_keys@[i],
        }
    }

    /// Whether `timestamp` falls in the subscription's interval.
    pub open spec fn spec_in_range(self, timestamp: u64) -> bool {
        self.start_time <= timestamp <= self.spec_end()
    }

    /// Well-formedness: at least one and at most 128 subtrees, every depth at
    /// most the tree's own depth of 64, and the walked intervals stay within
    /// the 64-bit timestamp space.
    pub open spec fn wf(self) -> bool {
        &&& 1 <= self.subtree_count <= MAX_SUBTREES
        &&& forall|i: int| 0 <= i < self.subtree_count ==> self.depths@[i] <= 64
        &&& self.spec_lo(self.subtree_count as int) <= u64::MAX + 1
    }
}

/// Every subtree span is positive, so the interval lows grow strictly.
pub proof fn lemma_interval_lo_grows(start: u64, depths: Seq<u8>, i: int, j: int)
    requires
        0 <= i <= j,
    ensures
        spec_interval_lo(start, depths, i) + (j - i) <= spec_interval_lo(start, depths, j),
    decreases j - i,
{
    if i < j {
        lemma_interval_lo_grows(start, depths, i, j - 1);
        lemma_pow2_pos((64 - depths[j - 1]) as nat);
    }
}

/// Two different subtrees of one subscription never cover the same
/// timestamp: the intervals `[lo_i, lo_{i+1} - 1]` are disjoint.
pub proof fn lemma_subtree_disjoint(start: u64, depths: Seq<u8>, i: int, j: int, t: int)
    requires
        0 <= i < j,
        spec_interval_lo(start, depths, i) <= t < spec_interval_lo(start, depths, i + 1),
    ensures
        !(spec_interval_lo(start, depths, j) <= t < spec_interval_lo(start, depths, j + 1)),
{
    lemma_interval_lo_grows(start, depths, i + 1, j);
}

impl CompressedSubscriptionEntry {
    /// Computes the inclusive upper bound of subtree `i` from the running
    /// lower bound `lowest`, together with the lower bound of subtree
    /// `i + 1` (which wraps to 0 when the subscription ends at the top of
    /// the timestamp space).
    fn subtree_bounds(&self, i: usize, lowest: u64) -> (r: (u64, u64))
        requires
            self.wf(),
            0 <= i < self.subtree_count,
            lowest == self.spec_lo(i as int),
        ensures
            r.0 == self.spec_lo(i as int + 1) - 1,
            r.1 == if self.spec_lo(i as int + 1) == u64::MAX + 1 {
                0int
            } else {
                self.spec_lo(i as int + 1)
            },
    {
        proof {
            lemma_interval_lo_grows(self.start_time, self.depths@, i as int, i as int + 1);
            lemma_interval_lo_grows(self.start_time, self.depths@, i as int + 1, self.subtree_count as int);
        }
        let depth = self.depths[i];

        // At a given depth, the subtree is 2^(64 - depth) leaves wide.
        // Since the lowest and highest timestamps are inclusive, the range
        // between them is one less than that, so `highest` is
        // `lowest + 2^(64 - depth) - 1`; a depth of 0 covers the whole
        // timestamp space, whose width does not fit in a u64.
        let offset = if depth == 0 {
            proof {
                lemma2_to64_rest();
            }
            u64::MAX
        } else {
            proof {
                lemma_u64_pow2_no_overflow((64 - depth) as nat);
                lemma_u64_shl_is_mul(1u64, (64 - depth) as u64);
            }
            (1u64 << (64 - depth) as u64) - 1
        };
        let highest = lowest + offset;

        // avoid a panic if highest == u64::MAX: the next lower bound is only
        // used when another subtree follows, and then it did not wrap
        (highest, highest.wrapping_add(1))
    }

    /// Gets the inclusive end time of this subscription entry
    pub fn end_time(&self) -> (end: u64)
        requires
            self.wf(),
        ensures
            end == self.spec_end(),
    {
        let mut current_timestamp = self.start_time;
        let count = self.subtree_count as usize;
        let mut i: usize = 0;
        while i < count
            invariant
                self.wf(),
                count == self.subtree_count,
                0 <= i <= count,
                i < count ==> current_timestamp == self.spec_lo(i as int),
                i == count ==> current_timestamp == if self.spec_lo(i as int) == u64::MAX + 1 {
                    0int
                } else {
                    self.spec_lo(i as int)
                },
            decreases count - i,
        {
            let (_, next) = self.subtree_bounds(i, current_timestamp);
            proof {
                if i + 1 < count {
                    lemma_interval_lo_grows(self.start_time, self.depths@, i as int + 1, count as int);
                }
            }
            current_timestamp = next;
            i += 1;
        }

        // if the subscription ends at u64::MAX, the last addition wrapped to
        // 0, and the subtraction below undoes that wrap
        proof {
            lemma_interval_lo_grows(self.start_time, self.depths@, 0, count as int);
        }
        current_timestamp.wrapping_sub(1)
    }

    /// Decides well-formedness: the subtree count is in range, every depth
    /// is at most 64, and the walked intervals stay inside the 64-bit
    /// timestamp space.
    pub fn check_wf(&self) -> (r: bool)
        ensures
            r == self.wf(),
    {
        if self.subtree_count < 1 || self.subtree_count > MAX_SUBTREES {
            return false;
        }
        let count = self.subtree_count as usize;
        let mut current: u64 = self.start_time;
        let mut i: usize = 0;
        while i < count
            invariant
                1 <= count <= MAX_SUBTREES,
                count == self.subtree_count,
                0 <= i <= count,
                forall|k: int| 0 <= k < i ==> self.depths@[k] <= 64,
                i < count ==> current == self.spec_lo(i as int),
                i == count ==> self.spec_lo(i as int) <= u64::MAX + 1,
            decreases count - i,
        {
            let depth = self.depths[i];
            if depth > 64 {
                return false;
            }
            let offset = if depth == 0 {
                proof {
                    lemma2_to64_rest();
                }
                u64::MAX
            } else {
                proof {
                    lemma_u64_pow2_no_overflow((64 - depth) as nat);
                    lemma_u64_shl_is_mul(1u64, (64 - depth) as u64);
                }
                (1u64 << (64 - depth) as u64) - 1
            };
            match current.checked_add(offset) {
                None => {
                    // this subtree would run past the top of the timestamp
                    // space
                    proof {
                        lemma_interval_lo_grows(self.start_time, self.depths@, i + 1, count as int);
                    }
                    return false;
                },
                Some(highest) => {
                    if i + 1 < count {
                        if highest == u64::MAX {
                            // a further subtree would start beyond the
                            // timestamp space
                            proof {
                                lemma_interval_lo_grows(
                                    self.start_time,
                                    self.depths@,
                                    i + 1,
                                    count as int,
                                );
                            }
                            return false;
                        }
                        current = highest + 1;
                    }
                },
            }
            i += 1;
        }
        true
    }

    /// Gets the subtree containing `timestamp`, or returns `None` if no such subtree exists in this subscription.
    ///
    /// The subtrees partition `[start_time, end]`, so a subtree is found
    /// exactly when `timestamp` lies in that interval, and it is the unique
    /// subtree whose own interval covers `timestamp`.
    pub fn get_subtree(&self, timestamp: u64) -> (r: Option<KeySubtree>)
        requires
            self.wf(),
        ensures
            r is Some <==> self.spec_in_range(timestamp),
            match r {
                Some(node) => exists|i: int|
                    0 <= i < self.subtree_count && node == #[trigger] self.spec_subtree(i)
                        && node.spec_contains(timestamp),
                None => true,
            },
    {
        let mut current_timestamp = self.start_time;
        let count = self.subtree_count as usize;
        let mut i: usize = 0;
        while i < count
            invariant
                self.wf(),
                count == self.subtree_count,
                0 <= i <= count,
                i < count ==> current_timestamp == self.spec_lo(i as int),
                timestamp < self.start_time || timestamp >= self.spec_lo(i as int),
            decreases count - i,
        {
            let (highest, next) = self.subtree_bounds(i, current_timestamp);

            if current_timestamp <= timestamp && timestamp <= highest {
                // found the subtree
                let node = KeySubtree {
                    lowest_timestamp: current_timestamp,
                    highest_timestamp: highest,
                    key: self.node_keys[i],
                };
                proof {
                    lemma_interval_lo_grows(self.start_time, self.depths@, 0, i as int);
                    lemma_interval_lo_grows(self.start_time, self.depths@, i as int + 1, count as int);
                    assert(node == self.spec_subtree(i as int));
                }
                return Some(node);
            }

            proof {
                if i + 1 < count {
                    lemma_interval_lo_grows(self.start_time, self.depths@, i as int + 1, count as int);
                }
            }
            current_timestamp = next;
            i += 1;
        }

        None
    }
}

/// `spec_interval_lo` only reads the first `i` depths, so any two depth
/// sequences that agree there walk to the same bound.
pub proof fn lemma_interval_lo_prefix(start: u64, d1: Seq<u8>, d2: Seq<u8>, i: int)
    requires
        forall|k: int| 0 <= k < i ==> d1[k] == d2[k],
    ensures
        spec_interval_lo(start, d1, i) == spec_interval_lo(start, d2, i),
    decreases i,
{
    if i > 0 {
        lemma_interval_lo_prefix(start, d1, d2, i - 1);
    }
}

/// The subtree that `get_subtree` finds is unique: no other subtree of a
/// well-formed subscription covers the same timestamp.
pub proof fn lemma_subtree_unique(entry: CompressedSubscriptionEntry, i: int, j: int, t: u64)
    requires
        entry.wf(),
        0 <= i < entry.subtree_count,
        0 <= j < entry.subtree_count,
        entry.spec_subtree(i).spec_contains(t),
        entry.spec_subtree(j).spec_contains(t),
    ensures
        i == j,
{
    lemma_interval_lo_bounds(entry, i);
    lemma_interval_lo_bounds(entry, j);
    if i < j {
        lemma_subtree_disjoint(entry.start_time, entry.depths@, i, j, t as int);
    } else if j < i {
        lemma_subtree_disjoint(entry.start_time, entry.depths@, j, i, t as int);
    }
}

/// Under well-formedness the interval bounds of every subtree fit in a u64,
/// so the casts in `spec_subtree` lose nothing.
pub proof fn lemma_interval_lo_bounds(entry: CompressedSubscriptionEntry, i: int)
    requires
        entry.wf(),
        0 <= i < entry.subtree_count,
    ensures
        entry.start_time <= entry.spec_lo(i) < entry.spec_lo(i + 1) <= u64::MAX + 1,
        entry.spec_subtree(i).lowest_timestamp == entry.spec_lo(i),
        entry.spec_subtree(i).highest_timestamp == entry.spec_lo(i + 1) - 1,
{
    lemma_interval_lo_grows(entry.start_time, entry.depths@, 0, i);
    lemma_interval_lo_grows(entry.start_time, entry.depths@, i, i + 1);
    lemma_interval_lo_grows(entry.start_time, entry.depths@, i + 1, entry.subtree_count as int);
}

} // verus!
