use onewire_core::ds18b20::{DS18B20Error, Ds18b20, Resolution};
use onewire_core::onewire::{OneWireBus, OneWireBusError};
use onewire_core::sampling::{SamplingPolicy, CHECKSUM_RETRIES};
use onewire_core::sim::ScriptedLine;

const CRC_MAXIM: crc::Crc<u8> = crc::Crc::<u8>::new(&crc::CRC_8_MAXIM_DOW);

const SENSOR_ADDRESS: u64 = 0x0102030405060728;

/// The sample levels of one conversion attempt against a device whose
/// scratchpad always arrives corrupted: a reset prelude for the convert
/// command, a reset prelude for the read, and 72 bits of a bad image.
fn corrupted_attempt_script() -> Vec<bool> {
    let mut image = [0x50u8, 0x05, 0x4b, 0x46, 0x7f, 0xff, 0x0c, 0x10, 0x00];
    image[8] = CRC_MAXIM.checksum(&image[..8]) ^ 0x01;
    let mut script = Vec::new();
    // Reset for the convert command.
    script.extend([true, false]);
    // Reset for the scratchpad read, then the corrupted bits.
    script.extend([true, false]);
    for byte in image {
        for bit in 0..8 {
            script.push((byte >> bit) & 1 == 1);
        }
    }
    script
}

#[test]
fn policy_retries_checksum_failures_exactly_three_times() {
    // A driver that always fails the checksum: the cycle must make exactly
    // 1 + 3 attempts and publish the checksum error with retry count 3.
    let mut script = Vec::new();
    for _ in 0..(CHECKSUM_RETRIES as usize + 1) {
        script.extend(corrupted_attempt_script());
    }
    let bus = OneWireBus::new(ScriptedLine::new(script));
    let mut sensor = Ds18b20::new(SENSOR_ADDRESS, bus).unwrap();

    let mut policy = SamplingPolicy::new();
    let mut attempts = 0u32;
    let reading = loop {
        attempts += 1;
        let result = sensor.start_temp_measurement().and_then(|()| {
            // The conversion wait would happen here; the simulated device
            // needs none.
            sensor.read_sensor_data()
        });
        if !policy.record_attempt(&result) {
            break policy.publish(12345, result);
        }
    };

    assert_eq!(attempts, 4);
    assert_eq!(reading.retries, 3);
    assert_eq!(reading.timestamp_ms, 12345);
    assert_eq!(
        reading.temperature,
        Err(DS18B20Error::OneWireError(OneWireBusError::ChecksumFailed))
    );
}

#[test]
fn policy_does_not_retry_structural_errors() {
    let mut policy = SamplingPolicy::new();
    let missing: Result<_, _> = Err(DS18B20Error::OneWireError(OneWireBusError::DeviceNotPresent));
    assert!(!policy.record_attempt(&missing));
    assert_eq!(policy.retry_count(), 0);

    let mismatch: Result<_, _> = Err(DS18B20Error::FamilyCodeMismatch);
    assert!(!policy.record_attempt(&mismatch));
    let invalid: Result<_, _> = Err(DS18B20Error::InvalidResolution);
    assert!(!policy.record_attempt(&invalid));
    let timeout: Result<_, _> = Err(DS18B20Error::OneWireError(OneWireBusError::BusNotHighTimeout));
    assert!(!policy.record_attempt(&timeout));
    assert_eq!(policy.retry_count(), 0);
}

#[test]
fn policy_stops_retrying_when_budget_is_spent() {
    let mut policy = SamplingPolicy::new();
    let checksum: Result<_, _> = Err(DS18B20Error::OneWireError(OneWireBusError::ChecksumFailed));
    for expected in 1..=CHECKSUM_RETRIES {
        assert!(policy.record_attempt(&checksum));
        assert_eq!(policy.retry_count(), expected);
    }
    assert!(!policy.record_attempt(&checksum));
    assert_eq!(policy.retry_count(), CHECKSUM_RETRIES);
}

#[test]
fn publish_maps_successful_reading_to_microdegrees() {
    let policy = SamplingPolicy::new();
    let data = onewire_core::ds18b20::SensorData {
        raw_temperature: -2,
        resolution: Resolution::Bits12,
        alarm_temp_high: 50,
        alarm_temp_low: -10,
    };
    let reading = policy.publish(777, Ok(data));
    assert_eq!(reading.timestamp_ms, 777);
    assert_eq!(reading.retries, 0);
    assert_eq!(reading.temperature, Ok(-125_000));
}

#[test]
fn successful_read_publishes_with_spent_retries() {
    // Two corrupted attempts, then a clean one: the reading carries the
    // measured temperature and a retry count of 2.
    let mut good_image = [0x50u8, 0x05, 0x4b, 0x46, 0x7f, 0xff, 0x0c, 0x10, 0x00];
    good_image[8] = CRC_MAXIM.checksum(&good_image[..8]);
    let mut script = Vec::new();
    script.extend(corrupted_attempt_script());
    script.extend(corrupted_attempt_script());
    script.extend([true, false, true, false]);
    for byte in good_image {
        for bit in 0..8 {
            script.push((byte >> bit) & 1 == 1);
        }
    }
    let bus = OneWireBus::new(ScriptedLine::new(script));
    let mut sensor = Ds18b20::new(SENSOR_ADDRESS, bus).unwrap();

    let mut policy = SamplingPolicy::new();
    let mut attempts = 0u32;
    let reading = loop {
        attempts += 1;
        let result = sensor
            .start_temp_measurement()
            .and_then(|()| sensor.read_sensor_data());
        if !policy.record_attempt(&result) {
            break policy.publish(9, result);
        }
    };
    assert_eq!(attempts, 3);
    assert_eq!(reading.retries, 2);
    assert_eq!(reading.temperature, Ok(85_000_000));
}
