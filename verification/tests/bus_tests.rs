use onewire_core::onewire::{OneWireBus, OneWireBusError};
use onewire_core::sim::{DevicesLine, LoopbackLine, ScriptedLine};

const CRC_MAXIM: crc::Crc<u8> = crc::Crc::<u8>::new(&crc::CRC_8_MAXIM_DOW);

/// A DS18B20-shaped address with the given low byte and serial, closed by
/// its own CRC-8 so that the engine accepts it.
fn make_address(low_byte: u8, serial: [u8; 6]) -> u64 {
    let mut bytes = [0u8; 8];
    bytes[0] = low_byte;
    bytes[1..7].copy_from_slice(&serial);
    bytes[7] = CRC_MAXIM.checksum(&bytes[..7]);
    u64::from_le_bytes(bytes)
}

/// The joint sample levels a set of devices would answer during one
/// search transaction (reset prelude included), and the address the
/// lowest-address-first policy discovers.
fn search_script(devices: &[u64]) -> (Vec<bool>, u64) {
    // The line floats high before the reset pulse; one device answers the
    // presence window by pulling it low.
    let mut script = vec![true, false];
    let mut active: Vec<u64> = devices.to_vec();
    let mut address: u64 = 0;
    for bit in 0..64 {
        // Devices send the bit, then its complement; the line is the
        // wired-AND: it stays high only if nobody pulls it low.
        let bit_level = active.iter().all(|a| (a >> bit) & 1 == 1);
        let complement_level = active.iter().all(|a| (a >> bit) & 1 == 0);
        script.push(bit_level);
        script.push(complement_level);
        let chosen = bit_level && !complement_level;
        if chosen {
            address |= 1u64 << bit;
        }
        active.retain(|a| ((a >> bit) & 1 == 1) == chosen);
    }
    (script, address)
}

#[test]
fn reset_times_out_when_bus_never_floats_high() {
    // The line reads low on every poll of the 250 microsecond window.
    let line = ScriptedLine::new(vec![false; 64]);
    let mut bus = OneWireBus::new(line);
    assert_eq!(bus.reset(), Err(OneWireBusError::BusNotHighTimeout));
}

#[test]
fn reset_fails_when_no_device_answers_presence_window() {
    // The line floats high and stays high through the whole 504
    // microsecond presence window: no device present.
    let line = ScriptedLine::new(vec![true; 64]);
    let mut bus = OneWireBus::new(line);
    assert_eq!(bus.reset(), Err(OneWireBusError::DeviceNotPresent));
}

#[test]
fn reset_succeeds_on_presence_pulse() {
    // High for the float check, low at the first presence poll.
    let line = ScriptedLine::new(vec![true, false]);
    let mut bus = OneWireBus::new(line);
    assert_eq!(bus.reset(), Ok(()));
}

#[test]
fn reset_succeeds_on_late_presence_pulse() {
    // The device answers only at the fourth presence poll.
    let line = ScriptedLine::new(vec![true, true, true, true, false]);
    let mut bus = OneWireBus::new(line);
    assert_eq!(bus.reset(), Ok(()));
}

#[test]
fn loopback_reproduces_written_byte() {
    let mut bus = OneWireBus::new(LoopbackLine::new());
    bus.write_byte(0b1011_0000);
    assert_eq!(bus.read_byte(), 0b1011_0000);
}

#[test]
fn loopback_keeps_byte_order_and_bit_order() {
    let mut bus = OneWireBus::new(LoopbackLine::new());
    for byte in [0x00u8, 0xff, 0x55, 0xaa, 0x01, 0x80, 0xb0] {
        bus.write_byte(byte);
    }
    for byte in [0x00u8, 0xff, 0x55, 0xaa, 0x01, 0x80, 0xb0] {
        assert_eq!(bus.read_byte(), byte);
    }
}

#[test]
fn search_finds_device_with_bit_5_zero() {
    // Two devices whose addresses differ only in bit 5.
    let lower = {
        let a = make_address(0x28, [0x64, 0x0b, 0x49, 0xaa, 0x82, 0xf6]);
        a & !(1u64 << 5)
    };
    // Rebuild the lower address so its CRC byte is valid again.
    let mut bytes = lower.to_le_bytes();
    bytes[7] = CRC_MAXIM.checksum(&bytes[..7]);
    let lower = u64::from_le_bytes(bytes);
    let higher = lower | (1u64 << 5);
    assert_ne!(lower, higher);

    let (script, expected) = search_script(&[lower, higher]);
    assert_eq!(expected, lower);

    let line = ScriptedLine::new(script);
    let mut bus = OneWireBus::new(line);
    let found = bus.find_first_device().expect("search should succeed");
    assert_eq!(found, lower);
    assert_eq!((found >> 5) & 1, 0);
}

#[test]
fn search_is_deterministic() {
    let device = make_address(0x28, [1, 2, 3, 4, 5, 6]);
    let (script, expected) = search_script(&[device]);
    assert_eq!(expected, device);
    for _ in 0..2 {
        let line = ScriptedLine::new(script.clone());
        let mut bus = OneWireBus::new(line);
        assert_eq!(bus.find_first_device(), Ok(device));
    }
}

#[test]
fn search_reports_no_response() {
    // Reset succeeds, but both reads of the first bit position come back
    // high: no device is participating in the search.
    let line = ScriptedLine::new(vec![true, false]);
    let mut bus = OneWireBus::new(line);
    assert_eq!(
        bus.find_first_device(),
        Err(OneWireBusError::NoResponseToSearch)
    );
}

#[test]
fn search_rejects_corrupt_address() {
    // One device whose address fails its own CRC: the search completes but
    // validation refuses the result.
    let device = make_address(0x28, [1, 2, 3, 4, 5, 6]) ^ (1u64 << 40);
    let (script, expected) = search_script(&[device]);
    assert_eq!(expected, device);
    let line = ScriptedLine::new(script);
    let mut bus = OneWireBus::new(line);
    assert_eq!(
        bus.find_first_device(),
        Err(OneWireBusError::ChecksumFailed)
    );
}

#[test]
fn loopback_reproduces_every_byte_value() {
    let mut bus = OneWireBus::new(LoopbackLine::new());
    for value in 0..=255u8 {
        bus.write_byte(value);
        assert_eq!(bus.read_byte(), value, "byte {value:#04x} came back changed");
    }
}

#[test]
fn reactive_bus_with_two_devices_returns_bit_5_zero() {
    // Two devices whose addresses differ only in bit 5, answering the
    // search protocol themselves: bits, complements, and drop-out on the
    // master's announced choices.
    let lower = {
        let mut bytes = [0x08u8, 0x64, 0x0b, 0x49, 0xaa, 0x82, 0xf6, 0x00];
        bytes[7] = CRC_MAXIM.checksum(&bytes[..7]);
        u64::from_le_bytes(bytes)
    };
    assert_eq!((lower >> 5) & 1, 0);
    let higher = lower | (1u64 << 5);

    let line = DevicesLine::new(vec![higher, lower]);
    let mut bus = OneWireBus::new(line);
    let found = bus.find_first_device().expect("search should succeed");
    assert_eq!(found, lower);
    assert_eq!((found >> 5) & 1, 0);
}

#[test]
fn reactive_bus_search_repeats_deterministically() {
    let device = make_address(0x28, [9, 8, 7, 6, 5, 4]);
    let line = DevicesLine::new(vec![device]);
    let mut bus = OneWireBus::new(line);
    // Each search starts with its own reset, which re-enlists every
    // device, so repeated searches converge on the same address.
    let first = bus.find_first_device().expect("first search");
    let second = bus.find_first_device().expect("second search");
    assert_eq!(first, device);
    assert_eq!(second, device);
}

#[test]
fn reactive_bus_without_devices_shows_nobody_present() {
    let line = DevicesLine::new(Vec::new());
    let mut bus = OneWireBus::new(line);
    assert_eq!(bus.reset(), Err(OneWireBusError::DeviceNotPresent));
}
