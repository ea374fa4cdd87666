//! The flash slot and the persisted entry encoding: byte round trips,
//! occupancy via the magic word, and atomicity under simulated power cuts.

use decoder::codec::{decode_entry, encode_entry, ENTRY_SIZE};
use decoder::flash::{FlashEntry, FLASH_PAGE_SIZE};
use decoder::subscription::CompressedSubscriptionEntry;

fn sample_entry() -> CompressedSubscriptionEntry {
    let mut entry = CompressedSubscriptionEntry {
        public_key: [11u8; 32],
        start_time: 0x1122334455667788,
        channel_id: 42,
        subtree_count: 2,
        depths: [0u8; 128],
        node_keys: [[0u8; 32]; 128],
    };
    entry.depths[0] = 63;
    entry.depths[1] = 63;
    entry.node_keys[0] = [1u8; 32];
    entry.node_keys[1] = [2u8; 32];
    entry
}

fn entries_equal(a: &CompressedSubscriptionEntry, b: &CompressedSubscriptionEntry) -> bool {
    a.public_key == b.public_key && a.start_time == b.start_time && a.channel_id == b.channel_id
        && a.subtree_count == b.subtree_count && a.depths[..] == b.depths[..]
        && a.node_keys[..] == b.node_keys[..]
}

#[test]
fn entry_bytes_round_trip() {
    let entry = sample_entry();
    let bytes = encode_entry(&entry);
    assert_eq!(bytes.len(), ENTRY_SIZE);
    // spot-check the fixed layout
    assert_eq!(&bytes[..32], &[11u8; 32]);
    assert_eq!(&bytes[32..40], &0x1122334455667788u64.to_le_bytes());
    assert_eq!(&bytes[40..44], &42u32.to_le_bytes());
    assert_eq!(&bytes[44..48], &2u32.to_le_bytes());
    assert_eq!(bytes[48], 63);
    assert_eq!(&bytes[176..208], &[1u8; 32]);

    let decoded = decode_entry(&bytes);
    assert!(entries_equal(&entry, &decoded));
}

#[test]
fn flash_slot_set_then_get() {
    let mut slot = FlashEntry::new_erased();
    assert!(!slot.has_object());
    assert!(slot.get().is_none());

    let entry = sample_entry();
    slot.set(&entry);
    assert!(slot.has_object());
    let read_back = slot.get().expect("slot was just written");
    assert!(entries_equal(&entry, &read_back));
}

#[test]
fn flash_slot_overwrite() {
    let mut slot = FlashEntry::new_erased();
    slot.set(&sample_entry());

    let mut second = sample_entry();
    second.channel_id = 77;
    second.start_time = 5;
    slot.set(&second);

    let read_back = slot.get().expect("slot holds the second entry");
    assert!(entries_equal(&second, &read_back));
}

#[test]
fn flash_slot_survives_page_image() {
    // a power cycle keeps the page bytes: rebuilding the slot from its
    // image preserves the stored entry byte for byte
    let mut slot = FlashEntry::new_erased();
    slot.set(&sample_entry());

    let image = slot.page_image();
    assert_eq!(image.len(), FLASH_PAGE_SIZE);
    let revived = FlashEntry::from_page(image);
    let read_back = revived.get().expect("the image carries the magic word");
    assert!(entries_equal(&sample_entry(), &read_back));
}

#[test]
fn flash_power_cut_leaves_slot_empty_or_whole() {
    // replay set()'s physical steps — erase, program a body prefix, program
    // the magic — cutting power after each: the slot shows the old value,
    // or nothing, never a partial entry
    let old_entry = sample_entry();
    let mut new_entry = sample_entry();
    new_entry.channel_id = 9;
    new_entry.node_keys[0] = [99u8; 32];
    let body = encode_entry(&new_entry);

    // cut before anything: old value intact
    let mut slot = FlashEntry::new_erased();
    slot.set(&old_entry);
    assert!(slot.get().is_some());

    // cut right after the erase: empty
    slot.erase();
    assert!(!slot.has_object());
    assert!(slot.get().is_none());

    // cut mid-way through the body write, at several prefixes: still empty
    for cut in [0usize, 1, 100, ENTRY_SIZE / 2, ENTRY_SIZE - 1, ENTRY_SIZE] {
        let mut interrupted = FlashEntry::new_erased();
        interrupted.program(0, &body[..cut]);
        assert!(!interrupted.has_object());
        assert!(interrupted.get().is_none());
    }

    // only the final magic write makes the new entry observable
    let mut finished = FlashEntry::new_erased();
    finished.set(&new_entry);
    let read_back = finished.get().expect("write completed");
    assert!(entries_equal(&new_entry, &read_back));
}
