//! Driver for the DS18B20 digital temperature sensor.
//!
//! The driver owns a bus engine and the 64-bit address of one sensor. It
//! knows the sensor's command set, the nine-byte scratchpad layout
//! `[temp_lsb, temp_msb, alarm_high, alarm_low, config, reserved x3, crc]`,
//! the four resolution configurations, and how the raw two's-complement
//! temperature register converts to degrees Celsius. Temperatures are
//! reported in exact microdegrees Celsius: every representable reading is a
//! whole multiple of 1/16 degree, so the conversion loses nothing.

use crate::crc::crc8;
use crate::line::{appended, samples_of, LineOp, OneWireLine};
use crate::onewire::{
    byte_from_bits, match_address_ops, read_bits_ops, reset_no_device_ops, reset_ok_ops,
    reset_timeout_ops, write_byte_ops, OneWireBus, OneWireBusError, PRESENCE_POLLS,
    WAIT_HIGH_POLLS,
};
use vstd::prelude::*;

verus! {

/// First address byte identifying the DS18B20 product family.
pub const FAMILY_CODE: u8 = 0x28;

/// Command byte starting a temperature conversion.
pub const CONVERT_TEMP: u8 = 0x44;

/// Command byte asking the sensor to stream out its scratchpad.
pub const READ_SCRATCHPAD: u8 = 0xbe;

/// A failure of the sensor driver.
#[derive(Clone, Copy, Debug, PartialEq, Eq, Structural)]
pub enum DS18B20Error {
    /// The bus engine failed underneath the driver.
    OneWireError(OneWireBusError),
    /// The scratchpad configuration byte matches no known resolution.
    InvalidResolution,
    /// The configured address does not carry the DS18B20 family code.
    FamilyCodeMismatch,
}

/// The sensor's conversion resolution, configured in the scratchpad.
///
/// Each resolution fixes a register bit pattern, a maximum conversion time,
/// and the divisor taking the raw register to degrees Celsius.
#[derive(Copy, Clone, Debug, PartialEq, Eq, Structural)]
pub enum Resolution {
    Bits9,
    Bits10,
    Bits11,
    Bits12,
}

/// The resolution encoded by a scratchpad configuration byte, if any.
pub open spec fn spec_resolution_of_config(value: u8) -> Result<Resolution, DS18B20Error> {
    if value == 0x1f {
        Ok(Resolution::Bits9)
    } else if value == 0x3f {
        Ok(Resolution::Bits10)
    } else if value == 0x5f {
        Ok(Resolution::Bits11)
    } else if value == 0x7f {
        Ok(Resolution::Bits12)
    } else {
        Err(DS18B20Error::InvalidResolution)
    }
}

impl Resolution {
    /// The configuration byte pattern of this resolution.
    pub open spec fn spec_config_byte(self) -> u8 {
        match self {
            Resolution::Bits9 => 0x1f,
            Resolution::Bits10 => 0x3f,
            Resolution::Bits11 => 0x5f,
            Resolution::Bits12 => 0x7f,
        }
    }

    /// Upper bound on the conversion time at this resolution, milliseconds.
    pub open spec fn spec_max_measurement_time_ms(self) -> u64 {
        match self {
            Resolution::Bits9 => 94,
            Resolution::Bits10 => 188,
            Resolution::Bits11 => 375,
            Resolution::Bits12 => 750,
        }
    }

    /// Divisor from the raw signed register value to degrees Celsius.
    pub open spec fn spec_divisor(self) -> u8 {
        match self {
            Resolution::Bits9 => 2,
            Resolution::Bits10 => 4,
            Resolution::Bits11 => 8,
            Resolution::Bits12 => 16,
        }
    }

    /// Exact number of microdegrees Celsius per raw register step:
    /// 1,000,000 divided by the divisor, which divides it evenly.
    pub open spec fn spec_micro_celsius_per_lsb(self) -> int {
        match self {
            Resolution::Bits9 => 500000,
            Resolution::Bits10 => 250000,
            Resolution::Bits11 => 125000,
            Resolution::Bits12 => 62500,
        }
    }

    /// Decodes a scratchpad configuration byte, accepting exactly the four
    /// patterns `0x1F`, `0x3F`, `0x5F`, `0x7F`.
    pub fn from_config_byte(value: u8) -> (r: Result<Resolution, DS18B20Error>)
        ensures
            r == spec_resolution_of_config(value),
    {
        match value {
            0x1f => Ok(Resolution::Bits9),
            0x3f => Ok(Resolution::Bits10),
            0x5f => Ok(Resolution::Bits11),
            0x7f => Ok(Resolution::Bits12),
            _ => Err(DS18B20Error::InvalidResolution),
        }
    }

    /// The configuration byte pattern of this resolution.
    pub fn config_byte(&self) -> (b: u8)
        ensures
            b == self.spec_config_byte(),
    {
        match self {
            Resolution::Bits9 => 0x1f,
            Resolution::Bits10 => 0x3f,
            Resolution::Bits11 => 0x5f,
            Resolution::Bits12 => 0x7f,
        }
    }

    /// Upper bound on the conversion time at this resolution, in
    /// milliseconds: 94, 188, 375 or 750 for 9 to 12 bits. A caller that
    /// starts a conversion must wait at least this long before reading.
    pub fn max_measurement_time(&self) -> (ms: u64)
        ensures
            ms == self.spec_max_measurement_time_ms(),
    {
        match self {
            Resolution::Bits9 => 94,
            Resolution::Bits10 => 188,
            Resolution::Bits11 => 375,
            Resolution::Bits12 => 750,
        }
    }

    /// Divisor from the raw signed register value to degrees Celsius:
    /// 2, 4, 8 or 16 for 9 to 12 bits.
    pub fn divisor(&self) -> (d: u8)
        ensures
            d == self.spec_divisor(),
    {
        match self {
            Resolution::Bits9 => 2,
            Resolution::Bits10 => 4,
            Resolution::Bits11 => 8,
            Resolution::Bits12 => 16,
        }
    }
}

/// Decoding a resolution's own configuration byte gives the resolution
/// back, and a byte decodes successfully exactly when it is one of the four
/// patterns, whose round trip is then the identity.
pub proof fn lemma_resolution_round_trip(r: Resolution)
    ensures
        spec_resolution_of_config(r.spec_config_byte()) == Ok::<Resolution, DS18B20Error>(r),
{
}

/// The other direction of the round trip: a byte that decodes at all
/// re-encodes to itself, and any byte outside the four patterns is refused.
pub proof fn lemma_config_byte_round_trip(value: u8)
    ensures
        match spec_resolution_of_config(value) {
            Ok(r) => r.spec_config_byte() == value,
            Err(e) => {
                &&& e == DS18B20Error::InvalidResolution
                &&& value != 0x1f && value != 0x3f && value != 0x5f && value != 0x7f
            },
        },
{
}

/// The raw temperature register: a two's-complement 16-bit value assembled
/// from its little-endian byte pair.
pub open spec fn spec_temp_raw(lo: u8, hi: u8) -> i16 {
    (((hi as u16) << 8u16) | (lo as u16)) as i16
}

/// All of the data that can be read from the sensor.
#[derive(Clone, Copy, Debug, PartialEq, Eq, Structural)]
pub struct SensorData {
    /// Raw signed temperature register. The power-on default corresponds
    /// to 85 degrees Celsius.
    pub raw_temperature: i16,

    /// The current resolution configuration.
    pub resolution: Resolution,

    /// If the last recorded temperature is higher than this, the sensor is
    /// put in an alarm state.
    pub alarm_temp_high: i8,

    /// If the last recorded temperature is lower than this, the sensor is
    /// put in an alarm state.
    pub alarm_temp_low: i8,
}

impl SensorData {
    /// The temperature in microdegrees Celsius: the raw register times the
    /// resolution's exact microdegrees-per-step factor.
    pub open spec fn spec_temperature_micro_celsius(self) -> int {
        self.raw_temperature * self.resolution.spec_micro_celsius_per_lsb()
    }

    /// The temperature in exact microdegrees Celsius.
    pub fn temperature_micro_celsius(&self) -> (t: i64)
        ensures
            t == self.spec_temperature_micro_celsius(),
    {
        let raw = self.raw_temperature as i64;
        match self.resolution {
            Resolution::Bits9 => raw * 500000,
            Resolution::Bits10 => raw * 250000,
            Resolution::Bits11 => raw * 125000,
            Resolution::Bits12 => raw * 62500,
        }
    }
}

/// The scratchpad bytes decoded into a typed measurement, or the reason
/// the configuration byte was refused.
pub open spec fn spec_decode_sensor_data(s: Seq<u8>) -> Result<SensorData, DS18B20Error>
    recommends
        s.len() == 9,
{
    match spec_resolution_of_config(s[4]) {
        Ok(resolution) => Ok(
            SensorData {
                raw_temperature: spec_temp_raw(s[0], s[1]),
                resolution,
                alarm_temp_high: s[2] as i8,
                alarm_temp_low: s[3] as i8,
            },
        ),
        Err(e) => Err(e),
    }
}

/// Decodes a validated nine-byte scratchpad image: the configuration byte
/// must match one of the four resolutions; the raw temperature register is
/// the little-endian signed 16-bit pair in the first two bytes; the alarm
/// thresholds are signed 8-bit values.
pub fn decode_sensor_data(scratchpad: &[u8]) -> (r: Result<SensorData, DS18B20Error>)
    requires
        scratchpad@.len() == 9,
    ensures
        r == spec_decode_sensor_data(scratchpad@),
{
    let resolution = match Resolution::from_config_byte(scratchpad[4]) {
        Ok(resolution) => resolution,
        Err(e) => {
            return Err(e);
        },
    };
    let raw_value: u16 = ((scratchpad[1] as u16) << 8u16) | (scratchpad[0] as u16);
    let raw_temperature = #[verifier::truncate] (raw_value as i16);
    Ok(
        SensorData {
            raw_temperature,
            resolution,
            alarm_temp_high: #[verifier::truncate] (scratchpad[2] as i8),
            alarm_temp_low: #[verifier::truncate] (scratchpad[3] as i8),
        },
    )
}

/// The bytes assembled from a stream of read-slot levels, eight levels per
/// byte, least-significant bit first.
pub open spec fn bytes_from_levels(levels: Seq<bool>) -> Seq<u8> {
    Seq::new((levels.len() / 8) as nat, |b: int| byte_from_bits(levels.subrange(8 * b, 8 * b + 8)))
}

/// The line transcript of one whole scratchpad read: reset (high poll `k`,
/// presence poll `j`), match this device's address, the read command, and
/// 72 read slots.
pub open spec fn scratchpad_read_transcript(
    ops: Seq<LineOp>,
    address: u64,
    levels: Seq<bool>,
    k: int,
    j: int,
) -> bool {
    &&& 0 <= k < WAIT_HIGH_POLLS
    &&& 0 <= j < PRESENCE_POLLS
    &&& levels.len() == 72
    &&& ops == reset_ok_ops(k, j) + match_address_ops(address) + write_byte_ops(READ_SCRATCHPAD)
        + read_bits_ops(levels)
}

/// Driver for one DS18B20 sensor: its 64-bit address and the owned bus.
pub struct Ds18b20<L: OneWireLine> {
    address: u64,
    bus: OneWireBus<L>,
}

impl<L: OneWireLine> Ds18b20<L> {
    /// The 64-bit address of the sensor this driver talks to.
    pub closed spec fn address(&self) -> u64 {
        self.address
    }

    /// Everything the driver's bus has done to the line, oldest first.
    pub closed spec fn log(&self) -> Seq<LineOp> {
        self.bus.log()
    }

    /// The stored address carries the DS18B20 family code in its low byte.
    pub open spec fn wf(&self) -> bool {
        self.address() & 0xff == FAMILY_CODE as u64
    }

    /// Validates that the low byte of `address` is the DS18B20 family code
    /// and takes ownership of the bus; refuses any other address with
    /// `FamilyCodeMismatch`.
    pub fn new(address: u64, bus: OneWireBus<L>) -> (r: Result<Self, DS18B20Error>)
        ensures
            address & 0xff == FAMILY_CODE as u64 ==> match r {
                Ok(d) => d.address() == address && d.log() == bus.log() && d.wf(),
                Err(_) => false,
            },
            address & 0xff != FAMILY_CODE as u64 ==> r matches Err(
                DS18B20Error::FamilyCodeMismatch,
            ),
    {
        if address & 0xff == FAMILY_CODE as u64 {
            Ok(Ds18b20 { address, bus })
        } else {
            Err(DS18B20Error::FamilyCodeMismatch)
        }
    }

    /// Issues a "convert temperature" command addressed to this device.
    ///
    /// Does not wait for completion: the conversion runs inside the sensor,
    /// and the caller must wait at least the resolution's
    /// `max_measurement_time` before reading the result back.
    pub fn start_temp_measurement(&mut self) -> (r: Result<(), DS18B20Error>)
        ensures
            final(self).address() == old(self).address(),
            ({
                let ops = appended(old(self).log(), final(self).log());
                &&& final(self).log() == old(self).log() + ops
                &&& match r {
                    Ok(()) => exists|k: int, j: int|
                        0 <= k < WAIT_HIGH_POLLS && 0 <= j < PRESENCE_POLLS && ops
                            == #[trigger] reset_ok_ops(k, j) + match_address_ops(
                            old(self).address(),
                        ) + write_byte_ops(CONVERT_TEMP),
                    Err(DS18B20Error::OneWireError(OneWireBusError::DeviceNotPresent)) => exists|
                        k: int,
                    | 0 <= k < WAIT_HIGH_POLLS && ops == #[trigger] reset_no_device_ops(k),
                    Err(DS18B20Error::OneWireError(OneWireBusError::BusNotHighTimeout)) => ops
                        == reset_timeout_ops(),
                    _ => false,
                }
            }),
    {
        match self.bus.send_command(CONVERT_TEMP, self.address) {
            Ok(()) => Ok(()),
            Err(e) => Err(DS18B20Error::OneWireError(e)),
        }
    }

    /// Reads the nine-byte scratchpad: reset, match this device's address,
    /// the read command, 72 read slots, and a CRC-8 check over all nine
    /// bytes before anything is trusted.
    pub fn read_scratchpad(&mut self) -> (r: Result<Vec<u8>, DS18B20Error>)
        ensures
            final(self).address() == old(self).address(),
            ({
                let ops = appended(old(self).log(), final(self).log());
                &&& final(self).log() == old(self).log() + ops
                &&& match r {
                    Ok(bytes) => exists|k: int, j: int, levels: Seq<bool>|
                        {
                            &&& #[trigger] scratchpad_read_transcript(
                                ops,
                                old(self).address(),
                                levels,
                                k,
                                j,
                            )
                            &&& bytes@ == bytes_from_levels(levels)
                            &&& crc8(bytes@) == 0
                        },
                    Err(DS18B20Error::OneWireError(OneWireBusError::ChecksumFailed)) => exists|
                        k: int,
                        j: int,
                        levels: Seq<bool>,
                    |
                        {
                            &&& #[trigger] scratchpad_read_transcript(
                                ops,
                                old(self).address(),
                                levels,
                                k,
                                j,
                            )
                            &&& crc8(bytes_from_levels(levels)) != 0
                        },
                    Err(DS18B20Error::OneWireError(OneWireBusError::DeviceNotPresent)) => exists|
                        k: int,
                    | 0 <= k < WAIT_HIGH_POLLS && ops == #[trigger] reset_no_device_ops(k),
                    Err(DS18B20Error::OneWireError(OneWireBusError::BusNotHighTimeout)) => ops
                        == reset_timeout_ops(),
                    _ => false,
                }
            }),
    {
        match self.bus.reset() {
            Ok(()) => {},
            Err(e) => {
                return Err(DS18B20Error::OneWireError(e));
            },
        }
        let ghost after_reset = self.log();
        let ghost (k, j) = choose|k: int, j: int|
            0 <= k < WAIT_HIGH_POLLS && 0 <= j < PRESENCE_POLLS && appended(
                old(self).log(),
                after_reset,
            ) == #[trigger] reset_ok_ops(k, j);
        self.bus.match_address(self.address);
        self.bus.write_byte(READ_SCRATCHPAD);
        let ghost before_read = self.log();
        let scratchpad = self.bus.read_bytes(9);
        let ghost levels = samples_of(appended(before_read, self.log()));
        proof {
            let ops = appended(old(self).log(), self.log());
            assert(ops =~= reset_ok_ops(k, j) + match_address_ops(old(self).address())
                + write_byte_ops(READ_SCRATCHPAD) + read_bits_ops(levels));
            assert(scratchpad@ =~= bytes_from_levels(levels));
            assert(scratchpad_read_transcript(ops, old(self).address(), levels, k, j));
        }
        match OneWireBus::<L>::check_crc8(scratchpad.as_slice()) {
            Ok(()) => {},
            Err(e) => {
                return Err(DS18B20Error::OneWireError(e));
            },
        }
        Ok(scratchpad)
    }

    /// Reads the scratchpad and decodes it into a typed measurement:
    /// resolution from the configuration byte, the signed raw temperature
    /// register, and the two alarm thresholds.
    pub fn read_sensor_data(&mut self) -> (r: Result<SensorData, DS18B20Error>)
        ensures
            final(self).address() == old(self).address(),
            ({
                let ops = appended(old(self).log(), final(self).log());
                &&& final(self).log() == old(self).log() + ops
                &&& match r {
                    Ok(data) => exists|k: int, j: int, levels: Seq<bool>|
                        {
                            &&& #[trigger] scratchpad_read_transcript(
                                ops,
                                old(self).address(),
                                levels,
                                k,
                                j,
                            )
                            &&& crc8(bytes_from_levels(levels)) == 0
                            &&& Ok::<SensorData, DS18B20Error>(data) == spec_decode_sensor_data(
                                bytes_from_levels(levels),
                            )
                        },
                    Err(DS18B20Error::InvalidResolution) => exists|k: int, j: int, levels: Seq<bool>|
                        {
                            &&& #[trigger] scratchpad_read_transcript(
                                ops,
                                old(self).address(),
                                levels,
                                k,
                                j,
                            )
                            &&& crc8(bytes_from_levels(levels)) == 0
                            &&& spec_decode_sensor_data(bytes_from_levels(levels)) == Err::<
                                SensorData,
                                DS18B20Error,
                            >(DS18B20Error::InvalidResolution)
                        },
                    Err(DS18B20Error::OneWireError(OneWireBusError::ChecksumFailed)) => exists|
                        k: int,
                        j: int,
                        levels: Seq<bool>,
                    |
                        {
                            &&& #[trigger] scratchpad_read_transcript(
                                ops,
                                old(self).address(),
                                levels,
                                k,
                                j,
                            )
                            &&& crc8(bytes_from_levels(levels)) != 0
                        },
                    Err(DS18B20Error::OneWireError(OneWireBusError::DeviceNotPresent)) => exists|
                        k: int,
                    | 0 <= k < WAIT_HIGH_POLLS && ops == #[trigger] reset_no_device_ops(k),
                    Err(DS18B20Error::OneWireError(OneWireBusError::BusNotHighTimeout)) => ops
                        == reset_timeout_ops(),
                    _ => false,
                }
            }),
    {
        let scratchpad = match self.read_scratchpad() {
            Ok(scratchpad) => scratchpad,
            Err(e) => {
                return Err(e);
            },
        };
        decode_sensor_data(scratchpad.as_slice())
    }
}

} // verus!
