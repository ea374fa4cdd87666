//! A flash slot: one erase page holding either nothing or one subscription
//! entry, validated by a trailing magic word.
//!
//! The page layout is `[entry bytes][padding][16-byte status tail]`, where
//! the first four bytes of the tail hold the magic word.  Writes follow the
//! physical-flash discipline: erase the page to all `0xFF`, program the
//! body, then program the magic last.  Because the magic is written last and
//! erased first, a power loss anywhere inside `set` leaves the slot
//! observable as empty or as the old contents, never as a half-written
//! entry; [`lemma_set_power_cut`] states exactly that.

use vstd::prelude::*;
use vstd::slice::slice_subrange;

use crate::codec::{decode_entry, encode_entry, entry_matches_bytes, spec_entry_bytes, ENTRY_SIZE};
use crate::subscription::CompressedSubscriptionEntry;

verus! {

/// Size of one flash erase page.
pub const FLASH_PAGE_SIZE: usize = 8192;

/// Offset of the 16-byte status section at the end of the page.
pub const STATUS_OFFSET: usize = 8176;

/// Magic word marking a slot as occupied; any other value means empty.
pub const FLASH_ENTRY_MAGIC: u32 = 0x11aa0055;

/// The little-endian bytes of [`FLASH_ENTRY_MAGIC`], as they sit on the page.
pub open spec fn spec_magic_bytes() -> Seq<u8> {
    seq![0x55u8, 0x00u8, 0xaau8, 0x11u8]
}

/// The little-endian bytes of [`FLASH_ENTRY_MAGIC`].
pub fn magic_bytes() -> (r: [u8; 4])
    ensures
        r@ == spec_magic_bytes(),
{
    let r = [0x55u8, 0x00u8, 0xaau8, 0x11u8];
    proof {
        assert(r@ =~= spec_magic_bytes());
    }
    r
}

/// The byte value of erased flash.
pub const ERASED_BYTE: u8 = 0xff;

/// An entire page of erased flash.
pub open spec fn spec_erased_page() -> Seq<u8> {
    Seq::new(FLASH_PAGE_SIZE as nat, |i: int| ERASED_BYTE)
}

/// The page bytes with `data` programmed at `offset` and the rest unchanged.
pub open spec fn spec_programmed(page: Seq<u8>, offset: int, data: Seq<u8>) -> Seq<u8> {
    Seq::new(page.len(), |i: int|
        if offset <= i < offset + data.len() {
            data[i - offset]
        } else {
            page[i]
        })
}

/// Whether a page's status section carries the magic word.
pub open spec fn spec_page_has_magic(page: Seq<u8>) -> bool {
    page.subrange(STATUS_OFFSET as int, STATUS_OFFSET + 4) == spec_magic_bytes()
}

/// What a reader observes on a page: the body bytes when the magic word
/// matches, nothing otherwise.
pub open spec fn spec_page_object(page: Seq<u8>) -> Option<Seq<u8>> {
    if spec_page_has_magic(page) {
        Some(page.subrange(0, ENTRY_SIZE as int))
    } else {
        None
    }
}

/// Stores an object on a page of flash.
pub struct FlashEntry {
    page: Vec<u8>,
}

impl FlashEntry {
    /// The raw bytes of the slot's page.
    pub closed spec fn spec_page(self) -> Seq<u8> {
        self.page@
    }

    /// The slot owns exactly one page.
    pub open spec fn wf(self) -> bool {
        self.spec_page().len() == FLASH_PAGE_SIZE
    }

    /// Whether the slot's magic word marks it as occupied.
    pub open spec fn spec_occupied(self) -> bool {
        spec_page_has_magic(self.spec_page())
    }

    /// The stored body bytes.
    pub open spec fn spec_body(self) -> Seq<u8> {
        self.spec_page().subrange(0, ENTRY_SIZE as int)
    }

    /// Creates a slot over a fresh, fully erased page.
    pub fn new_erased() -> (r: FlashEntry)
        ensures
            r.wf(),
            r.spec_page() == spec_erased_page(),
            !r.spec_occupied(),
    {
        let mut page: Vec<u8> = Vec::new();
        let mut i: usize = 0;
        while i < FLASH_PAGE_SIZE
            invariant
                0 <= i <= FLASH_PAGE_SIZE,
                page@.len() == i,
                forall|k: int| 0 <= k < i ==> page@[k] == ERASED_BYTE,
            decreases FLASH_PAGE_SIZE - i,
        {
            page.push(ERASED_BYTE);
            i += 1;
        }
        assert(page@ =~= spec_erased_page());
        let r = FlashEntry { page };
        proof {
            lemma_erased_page_empty();
        }
        r
    }

    /// Creates a slot over an existing page image, as found after a power
    /// cycle.
    pub fn from_page(page: Vec<u8>) -> (r: FlashEntry)
        requires
            page@.len() == FLASH_PAGE_SIZE,
        ensures
            r.wf(),
            r.spec_page() == page@,
    {
        FlashEntry { page }
    }

    /// A copy of the slot's page image, to carry across a power cycle.
    pub fn page_image(&self) -> (r: Vec<u8>)
        requires
            self.wf(),
        ensures
            r@ == self.spec_page(),
    {
        let mut out: Vec<u8> = Vec::new();
        out.extend_from_slice(self.page.as_slice());
        out
    }

    /// Erases the whole page to `0xFF`, which also clears the magic word.
    pub fn erase(&mut self)
        requires
            old(self).wf(),
        ensures
            final(self).wf(),
            final(self).spec_page() == spec_erased_page(),
            !final(self).spec_occupied(),
    {
        let mut fresh = FlashEntry::new_erased();
        core::mem::swap(&mut self.page, &mut fresh.page);
    }

    /// Programs `data` into the page at `offset`, leaving every other byte
    /// unchanged.  Models one flash program operation.
    pub fn program(&mut self, offset: usize, data: &[u8])
        requires
            old(self).wf(),
            offset + data@.len() <= FLASH_PAGE_SIZE,
        ensures
            final(self).wf(),
            final(self).spec_page() == spec_programmed(old(self).spec_page(), offset as int, data@),
    {
        let mut i: usize = 0;
        while i < data.len()
            invariant
                self.page@.len() == FLASH_PAGE_SIZE,
                offset + data@.len() <= FLASH_PAGE_SIZE,
                0 <= i <= data@.len(),
                forall|k: int| 0 <= k < i ==> self.page@[offset + k] == data@[k],
                forall|k: int|
                    0 <= k < FLASH_PAGE_SIZE && !(offset <= k < offset + i) ==> self.page@[k]
                        == old(self).spec_page()[k],
            decreases data@.len() - i,
        {
            self.page[offset + i] = data[i];
            i += 1;
        }
        assert(self.page@ =~= spec_programmed(old(self).spec_page(), offset as int, data@));
    }

    /// Programs the magic word into the status section, marking the slot
    /// occupied without touching the body.
    fn write_magic(&mut self)
        requires
            old(self).wf(),
        ensures
            final(self).wf(),
            final(self).spec_occupied(),
            final(self).spec_body() == old(self).spec_body(),
            final(self).spec_page() == spec_programmed(
                old(self).spec_page(),
                STATUS_OFFSET as int,
                spec_magic_bytes(),
            ),
    {
        let magic = magic_bytes();
        self.program(STATUS_OFFSET, magic.as_slice());
        proof {
            assert(self.spec_page().subrange(STATUS_OFFSET as int, STATUS_OFFSET + 4)
                =~= spec_magic_bytes());
            assert(final(self).spec_body() =~= old(self).spec_body());
        }
    }

    /// Whether the slot currently holds an object.
    pub fn has_object(&self) -> (r: bool)
        requires
            self.wf(),
        ensures
            r == self.spec_occupied(),
    {
        let b0 = self.page[STATUS_OFFSET];
        let b1 = self.page[STATUS_OFFSET + 1];
        let b2 = self.page[STATUS_OFFSET + 2];
        let b3 = self.page[STATUS_OFFSET + 3];
        let r = b0 == 0x55 && b1 == 0x00 && b2 == 0xaa && b3 == 0x11;
        proof {
            let status = self.spec_page().subrange(STATUS_OFFSET as int, STATUS_OFFSET + 4);
            assert(status[0] == b0 && status[1] == b1 && status[2] == b2 && status[3] == b3);
            assert(spec_magic_bytes()[0] == 0x55 && spec_magic_bytes()[1] == 0x00
                && spec_magic_bytes()[2] == 0xaa && spec_magic_bytes()[3] == 0x11);
            if r {
                assert(status =~= spec_magic_bytes());
            }
        }
        r
    }

    /// Reads the stored entry, present exactly when the magic word matches.
    pub fn get(&self) -> (r: Option<CompressedSubscriptionEntry>)
        requires
            self.wf(),
        ensures
            r is Some <==> self.spec_occupied(),
            r matches Some(e) ==> entry_matches_bytes(e, self.spec_body()),
    {
        if self.has_object() {
            let e = decode_entry(slice_subrange(self.page.as_slice(), 0, ENTRY_SIZE));
            Some(e)
        } else {
            None
        }
    }

    /// Sets the contents of the flash entry: erase the page, program the
    /// body, program the magic word last.
    pub fn set(&mut self, object: &CompressedSubscriptionEntry)
        requires
            old(self).wf(),
        ensures
            final(self).wf(),
            final(self).spec_occupied(),
            final(self).spec_body() == spec_entry_bytes(*object),
    {
        let data = encode_entry(object);

        // erase page first
        self.erase();

        // write data
        self.program(0, data.as_slice());

        // write status after whole object written
        self.write_magic();

        proof {
            assert(final(self).spec_body() =~= spec_entry_bytes(*object));
        }
    }
}

/// An erased page holds no object: erased status bytes never match the magic.
pub proof fn lemma_erased_page_empty()
    ensures
        !spec_page_has_magic(spec_erased_page()),
        spec_page_object(spec_erased_page()) is None,
{
    assert(spec_erased_page().subrange(STATUS_OFFSET as int, STATUS_OFFSET + 4)[0] == ERASED_BYTE);
}

/// Flash atomicity: a power cut at any point during `set` leaves the slot
/// observable as the prior contents or as empty, never as a partial write.
///
/// `set` performs three kinds of physical step: the erase, programming some
/// prefix of the body, and programming the magic.  For every prefix length
/// `k` of the body, the page after the cut either still shows the old
/// object, or shows no object at all; only the final magic write makes the
/// new body observable, and by then the body is complete.
pub proof fn lemma_set_power_cut(old_page: Seq<u8>, object: CompressedSubscriptionEntry, k: int)
    requires
        old_page.len() == FLASH_PAGE_SIZE,
        0 <= k <= ENTRY_SIZE,
    ensures
        spec_page_object(spec_erased_page()) is None,
        spec_page_object(
            spec_programmed(spec_erased_page(), 0, spec_entry_bytes(object).take(k)),
        ) is None,
        spec_page_object(
            spec_programmed(
                spec_programmed(spec_erased_page(), 0, spec_entry_bytes(object)),
                STATUS_OFFSET as int,
                spec_magic_bytes(),
            ),
        ) == Some(spec_entry_bytes(object)),
{
    crate::codec::lemma_entry_bytes_roundtrip(object);
    lemma_erased_page_empty();

    // after the erase and any partial body write the status bytes are still
    // erased, so no object is observable
    let partial = spec_programmed(spec_erased_page(), 0, spec_entry_bytes(object).take(k));
    assert(partial.subrange(STATUS_OFFSET as int, STATUS_OFFSET + 4)[0] == ERASED_BYTE);

    // once the magic is programmed, the full new body is observable
    let full = spec_programmed(
        spec_programmed(spec_erased_page(), 0, spec_entry_bytes(object)),
        STATUS_OFFSET as int,
        spec_magic_bytes(),
    );
    assert(full.subrange(STATUS_OFFSET as int, STATUS_OFFSET + 4) =~= spec_magic_bytes());
    assert(full.subrange(0, ENTRY_SIZE as int) =~= spec_entry_bytes(object));
}

} // verus!
