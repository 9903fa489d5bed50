use onewire_core::ds18b20::{decode_sensor_data, DS18B20Error, Ds18b20, Resolution};
use onewire_core::onewire::{OneWireBus, OneWireBusError};
use onewire_core::sim::ScriptedLine;

const CRC_MAXIM: crc::Crc<u8> = crc::Crc::<u8>::new(&crc::CRC_8_MAXIM_DOW);

/// Any address whose low byte is the DS18B20 family code.
const SENSOR_ADDRESS: u64 = 0x0102030405060728;

/// A nine-byte scratchpad image with the given temperature register and
/// configuration byte, closed by a valid CRC.
fn scratchpad(temp_lsb: u8, temp_msb: u8, config: u8) -> [u8; 9] {
    let mut bytes = [temp_lsb, temp_msb, 0x4b, 0x46, config, 0xff, 0x0c, 0x10, 0x00];
    bytes[8] = CRC_MAXIM.checksum(&bytes[..8]);
    bytes
}

/// The sample levels a device answers while the master reads these bytes,
/// least-significant bit of each byte first.
fn levels_of_bytes(bytes: &[u8]) -> Vec<bool> {
    let mut levels = Vec::new();
    for byte in bytes {
        for bit in 0..8 {
            levels.push((byte >> bit) & 1 == 1);
        }
    }
    levels
}

/// A script for one scratchpad read: reset prelude, then the 72 bits.
fn read_script(bytes: &[u8; 9]) -> Vec<bool> {
    let mut script = vec![true, false];
    script.extend(levels_of_bytes(bytes));
    script
}

fn sensor_with_script(script: Vec<bool>) -> Ds18b20<ScriptedLine> {
    let bus = OneWireBus::new(ScriptedLine::new(script));
    Ds18b20::new(SENSOR_ADDRESS, bus).expect("family code is valid")
}

#[test]
fn new_rejects_wrong_family_code() {
    let bus = OneWireBus::new(ScriptedLine::new(Vec::new()));
    match Ds18b20::new(0x0102030405060727, bus) {
        Err(DS18B20Error::FamilyCodeMismatch) => {}
        _ => panic!("an address without the 0x28 family code must be refused"),
    }
}

#[test]
fn decodes_power_on_default_as_85_celsius() {
    // Raw register 0x0550 little-endian at 12-bit resolution.
    let data = decode_sensor_data(&scratchpad(0x50, 0x05, 0x7f)).unwrap();
    assert_eq!(data.raw_temperature, 0x0550);
    assert_eq!(data.resolution, Resolution::Bits12);
    assert_eq!(data.temperature_micro_celsius(), 85_000_000);
}

#[test]
fn decodes_negative_temperature() {
    // Raw register 0xFFFE (-2 in two's complement) at 12-bit resolution:
    // -0.125 degrees Celsius.
    let data = decode_sensor_data(&scratchpad(0xfe, 0xff, 0x7f)).unwrap();
    assert_eq!(data.raw_temperature, -2);
    assert_eq!(data.temperature_micro_celsius(), -125_000);
}

#[test]
fn decodes_alarm_thresholds_as_signed_bytes() {
    let mut bytes = scratchpad(0x00, 0x00, 0x7f);
    bytes[2] = 0x7f; // alarm high: +127
    bytes[3] = 0xfe; // alarm low: -2
    bytes[8] = CRC_MAXIM.checksum(&bytes[..8]);
    let data = decode_sensor_data(&bytes).unwrap();
    assert_eq!(data.alarm_temp_high, 127);
    assert_eq!(data.alarm_temp_low, -2);
}

#[test]
fn resolution_round_trip() {
    let cases = [
        (0x1fu8, Resolution::Bits9, 94u64, 2u8),
        (0x3f, Resolution::Bits10, 188, 4),
        (0x5f, Resolution::Bits11, 375, 8),
        (0x7f, Resolution::Bits12, 750, 16),
    ];
    for (config, resolution, time_ms, divisor) in cases {
        let decoded = Resolution::from_config_byte(config).unwrap();
        assert_eq!(decoded, resolution);
        assert_eq!(decoded.config_byte(), config);
        assert_eq!(decoded.max_measurement_time(), time_ms);
        assert_eq!(decoded.divisor(), divisor);
    }
}

#[test]
fn resolution_rejects_every_other_byte() {
    for value in 0..=255u8 {
        let expected_valid = matches!(value, 0x1f | 0x3f | 0x5f | 0x7f);
        match Resolution::from_config_byte(value) {
            Ok(_) => assert!(expected_valid, "byte {value:#04x} wrongly accepted"),
            Err(DS18B20Error::InvalidResolution) => {
                assert!(!expected_valid, "byte {value:#04x} wrongly refused")
            }
            Err(other) => panic!("unexpected error {other:?}"),
        }
    }
}

#[test]
fn read_sensor_data_round_trip() {
    let image = scratchpad(0x50, 0x05, 0x7f);
    let mut sensor = sensor_with_script(read_script(&image));
    let data = sensor.read_sensor_data().unwrap();
    assert_eq!(data.raw_temperature, 0x0550);
    assert_eq!(data.resolution, Resolution::Bits12);
    assert_eq!(data.temperature_micro_celsius(), 85_000_000);
}

#[test]
fn read_scratchpad_returns_all_nine_bytes() {
    let image = scratchpad(0xfe, 0xff, 0x5f);
    let mut sensor = sensor_with_script(read_script(&image));
    let bytes = sensor.read_scratchpad().unwrap();
    assert_eq!(bytes.as_slice(), &image);
}

#[test]
fn read_detects_corrupted_scratchpad() {
    let mut image = scratchpad(0x50, 0x05, 0x7f);
    image[1] ^= 0x10;
    let mut sensor = sensor_with_script(read_script(&image));
    match sensor.read_sensor_data() {
        Err(DS18B20Error::OneWireError(OneWireBusError::ChecksumFailed)) => {}
        other => panic!("corrupted scratchpad must fail the checksum, got {other:?}"),
    }
}

#[test]
fn read_rejects_invalid_resolution_in_valid_scratchpad() {
    // The image passes the CRC but carries a configuration byte outside
    // the four known patterns.
    let image = scratchpad(0x50, 0x05, 0x00);
    let mut sensor = sensor_with_script(read_script(&image));
    match sensor.read_sensor_data() {
        Err(DS18B20Error::InvalidResolution) => {}
        other => panic!("unknown configuration must be refused, got {other:?}"),
    }
}

#[test]
fn start_measurement_propagates_missing_device() {
    // No device answers the presence window.
    let mut sensor = sensor_with_script(vec![true; 64]);
    match sensor.start_temp_measurement() {
        Err(DS18B20Error::OneWireError(OneWireBusError::DeviceNotPresent)) => {}
        other => panic!("expected DeviceNotPresent, got {other:?}"),
    }
}

#[test]
fn start_measurement_succeeds_with_device_present() {
    let mut sensor = sensor_with_script(vec![true, false]);
    assert_eq!(sensor.start_temp_measurement(), Ok(()));
}
