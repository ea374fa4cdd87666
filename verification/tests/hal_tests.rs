//! The board-support models: alignment, clocks, leds, gpio outputs, the
//! committed array and the component bookkeeping.

use decoder::committed_array::{CommittedArray, CommittedArrayError};
use decoder::components::{
    build_id_to_key_index, component_id_to_i2c_addr, get_key_for_build_id, ComponentKey, FlashData,
    ProvisionedComponent,
};
use decoder::gcr::{Gcr, SysclkSource, IBRO_FREQUENCY, IPO_FREQUENCY};
use decoder::gpio::{Gpio, GpioType};
use decoder::hal::{align_down, align_up};
use decoder::icc::Icc;
use decoder::led::{led_off, led_on, led_toggle, Led, LedBank};
use decoder::mpu::{MemoryCacheType, MpuRegionSize};

#[test]
fn alignment() {
    assert_eq!(align_down(0x1234, 0x1000), 0x1000);
    assert_eq!(align_down(0x1000, 0x1000), 0x1000);
    assert_eq!(align_down(7, 8), 0);
    assert_eq!(align_up(0x1001, 0x1000), 0x2000);
    assert_eq!(align_up(0x1000, 0x1000), 0x1000);
    assert_eq!(align_up(1, 8), 8);
}

#[test]
fn byte_concat() {
    assert_eq!(decoder::hal::concat(b"abc", b"de"), b"abcde".to_vec());
    assert_eq!(decoder::hal::concat(b"", b"x"), b"x".to_vec());
    assert_eq!(decoder::hal::concat(b"y", b""), b"y".to_vec());
}

#[test]
fn gcr_clock_frequencies() {
    let gcr = Gcr::new(SysclkSource::Ipo, 0);
    assert_eq!(gcr.get_sysclock_frequency(), IPO_FREQUENCY);
    assert_eq!(gcr.get_peripheral_clock_frequency(), IPO_FREQUENCY / 2);

    let divided = Gcr::new(SysclkSource::Ibro, 3);
    assert_eq!(divided.get_sysclock_frequency(), IBRO_FREQUENCY >> 3);
}

#[test]
fn gcr_clock_gating() {
    let mut gcr = Gcr::new(SysclkSource::Iso, 0);
    gcr.set_uart0_clock_enabled(false);
    assert!(!gcr.uart0_clock_enabled);
    gcr.set_uart0_clock_enabled(true);
    assert!(gcr.uart0_clock_enabled);

    gcr.set_trng_clock_enabled(false);
    gcr.set_i2c1_clock_enabled(false);
    gcr.set_gpio0_clock_enabled(false);
    gcr.set_gpio2_clock_enabled(false);
    assert!(!gcr.trng_clock_enabled && !gcr.i2c1_clock_enabled);
    assert!(!gcr.gpio0_clock_enabled && !gcr.gpio2_clock_enabled);

    gcr.enable_ibro_clock();
    assert!(gcr.ibro_enabled);
    gcr.reset_uart0();
    gcr.reset_i2c1();
    gcr.flush_cache();
    assert!(!gcr.cache_dirty);
}

#[test]
fn icc_toggles() {
    let mut icc = Icc::new_enabled();
    icc.disable();
    icc.enable();
    icc.disable();
}

#[test]
fn led_bank_drives_pins() {
    let mut bank = LedBank::new();
    led_on(Led::Red, &mut bank);
    assert!(bank.red && !bank.green && !bank.blue);
    led_on(Led::Green, &mut bank);
    led_off(Led::Red, &mut bank);
    assert!(!bank.red && bank.green);
    led_toggle(Led::Blue, &mut bank);
    assert!(bank.blue);
    led_toggle(Led::Blue, &mut bank);
    assert!(!bank.blue);
}

#[test]
fn led_from_index_mapping() {
    assert_eq!(Led::from_index(0), Some(Led::Red));
    assert_eq!(Led::from_index(1), Some(Led::Blue));
    assert_eq!(Led::from_index(2), Some(Led::Green));
    assert_eq!(Led::from_index(3), None);
}

#[test]
fn gpio_output_bits() {
    let mut gpio = Gpio::new();
    // the contracts pin the register values; exercise both banks
    gpio.output_set(GpioType::Gpio2, 0b101);
    gpio.output_clear(GpioType::Gpio2, 0b001);
    gpio.output_toggle(GpioType::Gpio2, 0b110);
    gpio.output_set(GpioType::Gpio0, 0b1);
    gpio.output_toggle(GpioType::Gpio0, 0b11);
    gpio.output_clear(GpioType::Gpio0, 0b10);
}

#[test]
fn mpu_encodings() {
    assert_eq!(MpuRegionSize::Bytes32.size_bits(), 0x4);
    assert_eq!(MpuRegionSize::KibiByte512.size_bits(), 0x12);
    assert_eq!(MpuRegionSize::MibiByte512.size_bits(), 0x1c);
    assert_eq!(MemoryCacheType::StronglyOrdered.to_bits(), 0);
    assert_eq!(MemoryCacheType::DeviceShared.to_bits(), 1);
    assert_eq!(MemoryCacheType::WriteBackUnshared.to_bits(), 3);
}

#[test]
fn committed_array_mailbox() {
    let mut array = CommittedArray::new();

    // nothing to take yet
    assert_eq!(array.try_take(16), Err(CommittedArrayError::Busy));

    array.try_commit(b"hello").expect("mailbox is empty");
    assert_eq!(array.try_commit(b"again"), Err(CommittedArrayError::Busy));

    // a too-small buffer leaves the message committed
    assert_eq!(array.try_take(3), Err(CommittedArrayError::OutputBufferTooSmall));
    assert_eq!(array.try_take(16), Ok(b"hello".to_vec()));
    assert_eq!(array.try_take(16), Err(CommittedArrayError::Busy));

    let oversize = vec![0u8; 257];
    assert_eq!(array.try_commit(&oversize), Err(CommittedArrayError::InputTooBig));
}

#[test]
fn component_addressing() {
    assert_eq!(component_id_to_i2c_addr(0x11223344), 0x44);
    assert_eq!(component_id_to_i2c_addr(0xff), 0xff);

    let keys = vec![
        ComponentKey { build_id: 10, pubkey: [1u8; 32] },
        ComponentKey { build_id: 20, pubkey: [2u8; 32] },
    ];
    assert_eq!(build_id_to_key_index(&keys, 10), Some(0));
    assert_eq!(build_id_to_key_index(&keys, 20), Some(1));
    assert_eq!(build_id_to_key_index(&keys, 30), None);
    assert_eq!(get_key_for_build_id(&keys, 20), Some([2u8; 32]));
    assert_eq!(get_key_for_build_id(&keys, 30), None);
}

#[test]
fn provisioned_component_lookup() {
    let flash_data = FlashData {
        components_len: 2,
        components: [
            ProvisionedComponent { component_id: 0x100000aa, key_index: 0 },
            ProvisionedComponent { component_id: 0x200000bb, key_index: 1 },
        ],
        flash_magic: 0,
    };

    let found = flash_data.get_provisioned_component(0x200000bb).expect("provisioned");
    assert_eq!(found.key_index, 1);
    assert!(flash_data.get_provisioned_component(0x300000cc).is_none());

    let by_addr = flash_data.get_component_for_i2c_addr(0xaa).expect("low byte matches");
    assert_eq!(by_addr.component_id, 0x100000aa);
    assert!(flash_data.get_component_for_i2c_addr(0xdd).is_none());
}
