//! The decoder's state: eight flash-backed subscription slots with their
//! RAM caches, the last decoded timestamp, and the compiled-in keys.

use vstd::prelude::*;

use crate::codec::{entry_matches_bytes, lemma_entry_of, spec_entry_bytes, spec_entry_of};
use crate::derive::{cache_valid, ChannelCache};
use crate::errors::DecoderContextError;
use crate::flash::FlashEntry;
use crate::icc::Icc;
use crate::subscription::CompressedSubscriptionEntry;

verus! {

/// How many subscription slots the decoder has.
pub const MAX_SUBSCRIPTIONS: usize = 8;

/// The decoder's compiled-in configuration: its identity and key material.
#[derive(Debug, Clone, Copy)]
pub struct DecoderParams {
    /// This decoder's identity, bound into every subscription.
    pub decoder_id: u32,
    /// Symmetric key under which subscriptions for this decoder arrive.
    pub subscription_enc_key: [u8; 32],
    /// Verifying key for subscription payloads.
    pub subscription_public_key: [u8; 32],
    /// Symmetric key of the emergency channel.
    pub channel0_enc_key: [u8; 32],
    /// Verifying key for frames on the emergency channel.
    pub channel0_public_key: [u8; 32],
    /// The channel id that is always decodable without a subscription.
    pub emergency_channel_id: u32,
}

/// Contains info needed to decode frames for a channel.
pub struct ChannelInfo {
    /// All persistent data related to the channel, stored in flash.
    pub flash_entry: FlashEntry,
    /// Cached info about the channel; none if the slot holds no
    /// subscription.
    pub cache: Option<ChannelCache>,
}

impl ChannelInfo {
    /// An occupied slot stores a well-formed, non-emergency subscription,
    /// and carries a cache whose key matches the stored one and whose
    /// entries form a valid derivation chain for it.
    pub open spec fn wf(self, emergency_channel_id: u32) -> bool {
        &&& self.flash_entry.wf()
        &&& self.flash_entry.spec_occupied() ==> {
            let e = spec_entry_of(self.flash_entry.spec_body());
            &&& entry_matches_bytes(e, self.flash_entry.spec_body())
            &&& e.wf()
            &&& e.channel_id != emergency_channel_id
            &&& self.cache matches Some(c) && c.public_key@ == e.public_key@ && cache_valid(
                c.cache_entries@,
                e,
            )
        }
        &&& !self.flash_entry.spec_occupied() ==> self.cache is None
    }

    /// The stored subscription.
    pub open spec fn spec_entry(self) -> CompressedSubscriptionEntry {
        spec_entry_of(self.flash_entry.spec_body())
    }

    /// Builds the channel info over an existing flash slot, materializing a
    /// fresh cache when the slot holds a subscription.
    pub fn from_flash(flash_entry: FlashEntry, Ghost(emergency_channel_id): Ghost<u32>) -> (r:
        ChannelInfo)
        requires
            flash_entry.wf(),
            flash_entry.spec_occupied() ==> spec_entry_of(flash_entry.spec_body()).wf()
                && spec_entry_of(flash_entry.spec_body()).channel_id != emergency_channel_id,
        ensures
            r.wf(emergency_channel_id),
            r.flash_entry == flash_entry,
    {
        let cache = match flash_entry.get() {
            Some(subscription) => {
                proof {
                    lemma_entry_of(subscription, flash_entry.spec_body());
                }
                Some(ChannelCache::new(&subscription.public_key))
            },
            None => None,
        };
        ChannelInfo { flash_entry, cache }
    }

    /// The channel id this slot is subscribed to, if any.
    pub fn channel_id(&self) -> (r: Option<u32>)
        requires
            self.flash_entry.wf(),
            self.flash_entry.spec_occupied() ==> entry_matches_bytes(
                self.spec_entry(),
                self.flash_entry.spec_body(),
            ),
        ensures
            r is Some <==> self.flash_entry.spec_occupied(),
            r matches Some(id) ==> id == self.spec_entry().channel_id,
    {
        match self.flash_entry.get() {
            Some(e) => {
                proof {
                    lemma_entry_of(e, self.flash_entry.spec_body());
                }
                Some(e.channel_id)
            },
            None => None,
        }
    }

    /// Updates the subscription for this channel, writing the flash slot
    /// and materializing a fresh cache from the subscription's public key.
    ///
    /// The instruction cache covering flash must be disabled for the write.
    pub fn set_subscription(
        &mut self,
        subscription: &CompressedSubscriptionEntry,
        icc: &Icc,
        Ghost(emergency_channel_id): Ghost<u32>,
    )
        requires
            old(self).flash_entry.wf(),
            subscription.wf(),
            subscription.channel_id != emergency_channel_id,
            !icc.spec_enabled(),
        ensures
            final(self).wf(emergency_channel_id),
            final(self).flash_entry.spec_occupied(),
            final(self).flash_entry.spec_body() == spec_entry_bytes(*subscription),
            final(self).spec_entry() == *subscription,
    {
        self.flash_entry.set(subscription);
        self.cache = Some(ChannelCache::new(&subscription.public_key));
        proof {
            crate::codec::lemma_entry_bytes_roundtrip(*subscription);
            lemma_entry_of(*subscription, self.flash_entry.spec_body());
        }
    }
}

/// Format of information about a channel sent back to the tv host tools for
/// the list channels command.
#[derive(Debug, Clone, Copy, PartialEq, Eq, Structural)]
pub struct DecoderChannelInfoResult {
    /// The subscribed channel.
    pub channel_id: u32,
    /// First timestamp the subscription covers.
    pub start_time: u64,
    /// Last timestamp the subscription covers, recomputed from the stored
    /// depths.
    pub end_time: u64,
}

/// Stores state of decoder.
pub struct DecoderContext {
    /// Data for all subscriptions.
    pub subscriptions: Vec<ChannelInfo>,
    /// Timestamp of last decoded frame (starts absent, reset by a power
    /// cycle).
    pub last_decoded_timestamp: Option<u64>,
    /// The compiled-in configuration.
    pub params: DecoderParams,
    /// Instruction cache controller.
    pub icc: Icc,
}

impl DecoderContext {
    /// Whether slot `i` holds a subscription.
    pub open spec fn spec_slot_occupied(self, i: int) -> bool {
        self.subscriptions@[i].flash_entry.spec_occupied()
    }

    /// The subscription slot `i` holds.
    pub open spec fn spec_slot_entry(self, i: int) -> CompressedSubscriptionEntry {
        self.subscriptions@[i].spec_entry()
    }

    /// Exactly eight slots, each well-formed, no two occupied slots sharing
    /// a channel id, and the instruction cache enabled between operations.
    pub open spec fn wf(self) -> bool {
        &&& self.subscriptions@.len() == MAX_SUBSCRIPTIONS
        &&& forall|i: int|
            0 <= i < MAX_SUBSCRIPTIONS ==> (#[trigger] self.subscriptions@[i]).wf(
                self.params.emergency_channel_id,
            )
        &&& forall|i: int, j: int|
            0 <= i < j < MAX_SUBSCRIPTIONS && self.spec_slot_occupied(i) && self.spec_slot_occupied(
                j,
            ) ==> (#[trigger] self.spec_slot_entry(i)).channel_id != (
            #[trigger] self.spec_slot_entry(j)).channel_id
        &&& self.icc.spec_enabled()
    }

    /// The first slot from `i` on that stores `channel_id`.
    pub open spec fn spec_find_channel(self, channel_id: u32, i: int) -> Option<int>
        decreases MAX_SUBSCRIPTIONS - i,
    {
        if i < 0 || i >= MAX_SUBSCRIPTIONS {
            None
        } else if self.spec_slot_occupied(i) && self.spec_slot_entry(i).channel_id == channel_id {
            Some(i)
        } else {
            self.spec_find_channel(channel_id, i + 1)
        }
    }

    /// The first empty slot from `i` on.
    pub open spec fn spec_find_empty(self, i: int) -> Option<int>
        decreases MAX_SUBSCRIPTIONS - i,
    {
        if i < 0 || i >= MAX_SUBSCRIPTIONS {
            None
        } else if !self.spec_slot_occupied(i) {
            Some(i)
        } else {
            self.spec_find_empty(i + 1)
        }
    }

    /// Initialize decoder state over the eight existing flash slots, as
    /// found after power-up: caches are rebuilt from flash, nothing is
    /// remembered from before the power cycle.
    pub fn new(params: DecoderParams, pages: Vec<FlashEntry>) -> (r: DecoderContext)
        requires
            pages@.len() == MAX_SUBSCRIPTIONS,
            forall|i: int| 0 <= i < MAX_SUBSCRIPTIONS ==> (#[trigger] pages@[i]).wf(),
            forall|i: int|
                0 <= i < MAX_SUBSCRIPTIONS && (#[trigger] pages@[i]).spec_occupied() ==> {
                    let e = spec_entry_of(pages@[i].spec_body());
                    &&& entry_matches_bytes(e, pages@[i].spec_body())
                    &&& e.wf()
                    &&& e.channel_id != params.emergency_channel_id
                },
            forall|i: int, j: int|
                0 <= i < j < MAX_SUBSCRIPTIONS && (#[trigger] pages@[i]).spec_occupied() && (
                #[trigger] pages@[j]).spec_occupied() ==> spec_entry_of(pages@[i].spec_body()).channel_id
                    != spec_entry_of(pages@[j].spec_body()).channel_id,
        ensures
            r.wf(),
            r.params == params,
            r.last_decoded_timestamp is None,
            r.subscriptions@.len() == MAX_SUBSCRIPTIONS,
            forall|i: int|
                0 <= i < MAX_SUBSCRIPTIONS ==> (#[trigger] r.subscriptions@[i]).flash_entry
                    == pages@[i],
    {
        let ghost original_pages = pages@;
        let mut pages = pages;
        let mut subscriptions: Vec<ChannelInfo> = Vec::new();
        let mut i: usize = 0;
        while i < MAX_SUBSCRIPTIONS
            invariant
                0 <= i <= MAX_SUBSCRIPTIONS,
                pages@.len() == MAX_SUBSCRIPTIONS - i,
                original_pages.len() == MAX_SUBSCRIPTIONS,
                pages@ == original_pages.skip(i as int),
                subscriptions@.len() == i,
                forall|k: int|
                    0 <= k < i ==> (#[trigger] subscriptions@[k]).wf(params.emergency_channel_id),
                forall|k: int|
                    0 <= k < i ==> (#[trigger] subscriptions@[k]).flash_entry == original_pages[k],
                forall|k: int| 0 <= k < original_pages.len() ==> (#[trigger] original_pages[k]).wf(),
                forall|k: int|
                    0 <= k < original_pages.len() && (#[trigger] original_pages[k]).spec_occupied()
                        ==> {
                        let e = spec_entry_of(original_pages[k].spec_body());
                        &&& entry_matches_bytes(e, original_pages[k].spec_body())
                        &&& e.wf()
                        &&& e.channel_id != params.emergency_channel_id
                    },
            decreases MAX_SUBSCRIPTIONS - i,
        {
            let page = pages.remove(0);
            proof {
                assert(page == original_pages[i as int]);
                assert(pages@ =~= original_pages.skip(i + 1));
            }
            let info = ChannelInfo::from_flash(page, Ghost(params.emergency_channel_id));
            subscriptions.push(info);
            i += 1;
        }

        let r = DecoderContext {
            subscriptions,
            last_decoded_timestamp: None,
            params,
            icc: Icc::new_enabled(),
        };
        r
    }

    /// The index of the slot subscribed to `channel_id`, if any.
    pub(crate) fn find_channel_index(&self, channel_id: u32) -> (r: Option<usize>)
        requires
            self.wf(),
        ensures
            match r {
                Some(i) => Some(i as int) == self.spec_find_channel(channel_id, 0),
                None => self.spec_find_channel(channel_id, 0) is None,
            },
    {
        let mut i: usize = 0;
        while i < MAX_SUBSCRIPTIONS
            invariant
                self.wf(),
                0 <= i <= MAX_SUBSCRIPTIONS,
                self.spec_find_channel(channel_id, 0) == self.spec_find_channel(
                    channel_id,
                    i as int,
                ),
            decreases MAX_SUBSCRIPTIONS - i,
        {
            match self.subscriptions[i].channel_id() {
                Some(id) if id == channel_id => {
                    return Some(i);
                },
                _ => {},
            }
            i += 1;
        }
        None
    }

    /// The index of the first empty slot, if any.
    fn find_empty_index(&self) -> (r: Option<usize>)
        requires
            self.wf(),
        ensures
            match r {
                Some(i) => Some(i as int) == self.spec_find_empty(0),
                None => self.spec_find_empty(0) is None,
            },
    {
        let mut i: usize = 0;
        while i < MAX_SUBSCRIPTIONS
            invariant
                self.wf(),
                0 <= i <= MAX_SUBSCRIPTIONS,
                self.spec_find_empty(0) == self.spec_find_empty(i as int),
            decreases MAX_SUBSCRIPTIONS - i,
        {
            if !self.subscriptions[i].flash_entry.has_object() {
                return Some(i);
            }
            i += 1;
        }
        None
    }

    /// Retrieves the stored subscription for the given channel, or `None`
    /// if no subscription exists for it.
    pub fn get_subscription_for_channel(&self, channel_id: u32) -> (r: Option<
        CompressedSubscriptionEntry,
    >)
        requires
            self.wf(),
        ensures
            r is Some <==> self.spec_find_channel(channel_id, 0) is Some,
            r matches Some(e) ==> {
                &&& Some(e) == match self.spec_find_channel(channel_id, 0) {
                    Some(i) => Some(self.spec_slot_entry(i)),
                    None => None,
                }
                &&& e.wf()
                &&& e.channel_id == channel_id
            },
    {
        let i = match self.find_channel_index(channel_id) {
            Some(i) => i,
            None => {
                return None;
            },
        };
        proof {
            lemma_find_channel_found(*self, channel_id, 0);
        }
        let e = match self.subscriptions[i].flash_entry.get() {
            Some(e) => e,
            None => {
                proof {
                    assert(false);
                }
                return None;
            },
        };
        proof {
            lemma_entry_of(e, self.subscriptions@[i as int].flash_entry.spec_body());
        }
        Some(e)
    }

    /// Updates subscription information using provided `subscription`.
    ///
    /// If a subscription with the same channel id already exists, it is
    /// overwritten; otherwise the first empty slot is used; when every
    /// slot belongs to another channel, the update fails.  Slot writes
    /// happen with the flash instruction cache disabled and re-enabled
    /// after.
    pub fn update_subscription(&mut self, subscription: &CompressedSubscriptionEntry) -> (r:
        Result<(), DecoderContextError>)
        requires
            old(self).wf(),
            subscription.wf(),
            subscription.channel_id != old(self).params.emergency_channel_id,
        ensures
            final(self).wf(),
            final(self).params == old(self).params,
            final(self).last_decoded_timestamp == old(self).last_decoded_timestamp,
            final(self).subscriptions@.len() == MAX_SUBSCRIPTIONS,
            match spec_update_target(*old(self), subscription.channel_id) {
                Some(i) => {
                    &&& r is Ok
                    &&& final(self).spec_slot_occupied(i)
                    &&& final(self).subscriptions@[i].flash_entry.spec_body() == spec_entry_bytes(
                        *subscription,
                    )
                    &&& final(self).spec_slot_entry(i) == *subscription
                    &&& forall|j: int|
                        0 <= j < MAX_SUBSCRIPTIONS && j != i ==> (
                        #[trigger] final(self).subscriptions@[j]).flash_entry == old(
                            self,
                        ).subscriptions@[j].flash_entry
                },
                None => {
                    &&& r == Err::<(), DecoderContextError>(
                        DecoderContextError::TooManySubscriptions,
                    )
                    &&& forall|j: int|
                        0 <= j < MAX_SUBSCRIPTIONS ==> (
                        #[trigger] final(self).subscriptions@[j]).flash_entry == old(
                            self,
                        ).subscriptions@[j].flash_entry
                },
            },
    {
        let target = match self.find_channel_index(subscription.channel_id) {
            Some(i) => {
                proof {
                    lemma_find_channel_found(*self, subscription.channel_id, 0);
                }
                Some(i)
            },
            None => {
                let empty = self.find_empty_index();
                proof {
                    if empty is Some {
                        lemma_find_empty_found(*self, 0);
                    }
                }
                empty
            },
        };

        self.icc.disable();

        let result = match target {
            Some(i) => {
                let ghost old_subs = self.subscriptions@;
                self.subscriptions[i].set_subscription(
                    subscription,
                    &self.icc,
                    Ghost(self.params.emergency_channel_id),
                );
                proof {
                    assert forall|j: int| 0 <= j < MAX_SUBSCRIPTIONS && j != i implies (
                    #[trigger] self.subscriptions@[j]) == old_subs[j] by {
                        assert(self.subscriptions@ == old_subs.update(
                            i as int,
                            self.subscriptions@[i as int],
                        ));
                    }
                }
                Ok(())
            },
            None => Err(DecoderContextError::TooManySubscriptions),
        };

        self.icc.enable();

        proof {
            lemma_update_preserves_wf(*old(self), *self, *subscription, target);
        }
        result
    }

    /// Returns a list of info about all subscribed channels, in slot
    /// order: exactly the occupied slots, each with its end time
    /// recomputed from the stored depths.
    pub fn list_channels(&self) -> (r: Vec<DecoderChannelInfoResult>)
        requires
            self.wf(),
        ensures
            r@ == spec_list_upto(*self, MAX_SUBSCRIPTIONS as int),
    {
        let mut out: Vec<DecoderChannelInfoResult> = Vec::new();
        let mut i: usize = 0;
        while i < MAX_SUBSCRIPTIONS
            invariant
                self.wf(),
                0 <= i <= MAX_SUBSCRIPTIONS,
                out@ == spec_list_upto(*self, i as int),
            decreases MAX_SUBSCRIPTIONS - i,
        {
            match self.subscriptions[i].flash_entry.get() {
                Some(subscription) => {
                    proof {
                        lemma_entry_of(
                            subscription,
                            self.subscriptions@[i as int].flash_entry.spec_body(),
                        );
                    }
                    let end_time = subscription.end_time();
                    out.push(DecoderChannelInfoResult {
                        channel_id: subscription.channel_id,
                        start_time: subscription.start_time,
                        end_time,
                    });
                    proof {
                        assert(out@ =~= spec_list_upto(*self, i + 1));
                    }
                },
                None => {
                    proof {
                        assert(out@ =~= spec_list_upto(*self, i + 1));
                    }
                },
            }
            i += 1;
        }
        out
    }
}

/// The slot an update for `channel_id` lands in: the slot already storing
/// the channel, else the first empty slot, else none.
pub open spec fn spec_update_target(ctx: DecoderContext, channel_id: u32) -> Option<int> {
    match ctx.spec_find_channel(channel_id, 0) {
        Some(i) => Some(i),
        None => ctx.spec_find_empty(0),
    }
}

/// What `list_channels` reports for the first `i` slots: one record per
/// occupied slot, in slot order.
pub open spec fn spec_list_upto(ctx: DecoderContext, i: int) -> Seq<DecoderChannelInfoResult>
    decreases i,
{
    if i <= 0 {
        Seq::empty()
    } else if ctx.spec_slot_occupied(i - 1) {
        spec_list_upto(ctx, i - 1).push(
            DecoderChannelInfoResult {
                channel_id: ctx.spec_slot_entry(i - 1).channel_id,
                start_time: ctx.spec_slot_entry(i - 1).start_time,
                end_time: ctx.spec_slot_entry(i - 1).spec_end() as u64,
            },
        )
    } else {
        spec_list_upto(ctx, i - 1)
    }
}

/// A successful channel search names an occupied slot holding the channel.
pub proof fn lemma_find_channel_found(ctx: DecoderContext, channel_id: u32, i: int)
    requires
        ctx.spec_find_channel(channel_id, i) is Some,
    ensures
        ({
            let j = ctx.spec_find_channel(channel_id, i)->Some_0;
            &&& i <= j < MAX_SUBSCRIPTIONS
            &&& ctx.spec_slot_occupied(j)
            &&& ctx.spec_slot_entry(j).channel_id == channel_id
        }),
    decreases MAX_SUBSCRIPTIONS - i,
{
    if 0 <= i < MAX_SUBSCRIPTIONS && !(ctx.spec_slot_occupied(i) && ctx.spec_slot_entry(
        i,
    ).channel_id == channel_id) {
        lemma_find_channel_found(ctx, channel_id, i + 1);
    }
}

/// A failed channel search means no slot from `i` on stores the channel.
pub proof fn lemma_find_channel_none(ctx: DecoderContext, channel_id: u32, i: int)
    requires
        0 <= i,
        ctx.spec_find_channel(channel_id, i) is None,
    ensures
        forall|j: int|
            i <= j < MAX_SUBSCRIPTIONS && ctx.spec_slot_occupied(j) ==> (
            #[trigger] ctx.spec_slot_entry(j)).channel_id != channel_id,
    decreases MAX_SUBSCRIPTIONS - i,
{
    if 0 <= i < MAX_SUBSCRIPTIONS {
        lemma_find_channel_none(ctx, channel_id, i + 1);
    }
}

/// A successful empty-slot search names an empty slot.
pub proof fn lemma_find_empty_found(ctx: DecoderContext, i: int)
    requires
        ctx.spec_find_empty(i) is Some,
    ensures
        ({
            let j = ctx.spec_find_empty(i)->Some_0;
            &&& i <= j < MAX_SUBSCRIPTIONS
            &&& !ctx.spec_slot_occupied(j)
        }),
    decreases MAX_SUBSCRIPTIONS - i,
{
    if 0 <= i < MAX_SUBSCRIPTIONS && ctx.spec_slot_occupied(i) {
        lemma_find_empty_found(ctx, i + 1);
    }
}

/// After a slot write the store is still well-formed: the written slot
/// holds the new subscription and every other slot is untouched.
proof fn lemma_update_preserves_wf(
    before: DecoderContext,
    after: DecoderContext,
    subscription: CompressedSubscriptionEntry,
    target: Option<usize>,
)
    requires
        before.wf(),
        subscription.wf(),
        subscription.channel_id != before.params.emergency_channel_id,
        after.params == before.params,
        after.icc.spec_enabled(),
        after.subscriptions@.len() == MAX_SUBSCRIPTIONS,
        match target {
            Some(i) => {
                &&& Some(i as int) == spec_update_target(before, subscription.channel_id)
                &&& after.subscriptions@[i as int].wf(before.params.emergency_channel_id)
                &&& after.spec_slot_occupied(i as int)
                &&& after.spec_slot_entry(i as int) == subscription
                &&& forall|j: int|
                    0 <= j < MAX_SUBSCRIPTIONS && j != i ==> (
                    #[trigger] after.subscriptions@[j]) == before.subscriptions@[j]
            },
            None => {
                &&& spec_update_target(before, subscription.channel_id) is None
                &&& forall|j: int|
                    0 <= j < MAX_SUBSCRIPTIONS ==> (#[trigger] after.subscriptions@[j])
                        == before.subscriptions@[j]
            },
        },
    ensures
        after.wf(),
{
    match target {
        Some(i) => {
            let i = i as int;
            assert forall|j: int| 0 <= j < MAX_SUBSCRIPTIONS implies (
            #[trigger] after.subscriptions@[j]).wf(after.params.emergency_channel_id) by {
                if j != i {
                    assert(after.subscriptions@[j] == before.subscriptions@[j]);
                }
            }
            assert forall|a: int, b: int|
                0 <= a < b < MAX_SUBSCRIPTIONS && after.spec_slot_occupied(a)
                    && after.spec_slot_occupied(b) implies (
            #[trigger] after.spec_slot_entry(a)).channel_id != (
            #[trigger] after.spec_slot_entry(b)).channel_id by {
                if a != i && b != i {
                    assert(after.subscriptions@[a] == before.subscriptions@[a]);
                    assert(after.subscriptions@[b] == before.subscriptions@[b]);
                    assert(after.spec_slot_entry(a) == before.spec_slot_entry(a));
                    assert(after.spec_slot_entry(b) == before.spec_slot_entry(b));
                    assert(before.spec_slot_occupied(a) && before.spec_slot_occupied(b));
                    assert(before.spec_slot_entry(a).channel_id != before.spec_slot_entry(
                        b,
                    ).channel_id);
                } else {
                    let other = if a == i {
                        b
                    } else {
                        a
                    };
                    assert(after.subscriptions@[other] == before.subscriptions@[other]);
                    assert(after.spec_slot_entry(other) == before.spec_slot_entry(other));
                    assert(after.spec_slot_entry(i) == subscription);
                    assert(before.spec_slot_occupied(other));
                    if before.spec_find_channel(subscription.channel_id, 0) is Some {
                        lemma_find_channel_found(before, subscription.channel_id, 0);
                        // the replaced slot was the unique one for this channel
                        assert(before.spec_slot_entry(i).channel_id == subscription.channel_id);
                        if i < other {
                            assert(before.spec_slot_entry(i).channel_id
                                != before.spec_slot_entry(other).channel_id);
                        } else {
                            assert(before.spec_slot_entry(other).channel_id
                                != before.spec_slot_entry(i).channel_id);
                        }
                    } else {
                        lemma_find_channel_none(before, subscription.channel_id, 0);
                        assert(before.spec_slot_entry(other).channel_id
                            != subscription.channel_id);
                    }
                }
            }
        },
        None => {
            assert forall|j: int| 0 <= j < MAX_SUBSCRIPTIONS implies (
            #[trigger] after.subscriptions@[j]).wf(after.params.emergency_channel_id) by {
                assert(after.subscriptions@[j] == before.subscriptions@[j]);
            }
            assert forall|a: int, b: int|
                0 <= a < b < MAX_SUBSCRIPTIONS && after.spec_slot_occupied(a)
                    && after.spec_slot_occupied(b) implies (
            #[trigger] after.spec_slot_entry(a)).channel_id != (
            #[trigger] after.spec_slot_entry(b)).channel_id by {
                assert(after.subscriptions@[a] == before.subscriptions@[a]);
                assert(after.subscriptions@[b] == before.subscriptions@[b]);
                assert(after.spec_slot_entry(a) == before.spec_slot_entry(a));
                assert(after.spec_slot_entry(b) == before.spec_slot_entry(b));
                assert(before.spec_slot_occupied(a) && before.spec_slot_occupied(b));
                assert(before.spec_slot_entry(a).channel_id != before.spec_slot_entry(
                    b,
                ).channel_id);
            }
        },
    }
}

} // verus!
