//! The sampling policy: bounded retry around one measurement cycle.
//!
//! Once per cycle the policy starts a conversion, waits out the
//! resolution's conversion time (a genuine suspension point, performed by
//! the caller), and reads the sensor back. A failed read is retried only
//! when it failed the checksum — transient electrical noise is the one
//! error class assumed self-correcting — and only up to
//! [`CHECKSUM_RETRIES`] times; every other error, and an exhausted retry
//! budget, is published as-is together with the retry count. Exactly one
//! [`TemperatureReading`] is published per cycle, whatever the outcome.

use crate::ds18b20::{DS18B20Error, SensorData};
use crate::onewire::OneWireBusError;
use vstd::prelude::*;

verus! {

/// How many retries a checksum failure earns within one sampling cycle.
pub const CHECKSUM_RETRIES: u8 = 3;

/// The reading published once per sampling cycle.
#[derive(Clone, Copy, Debug, PartialEq)]
pub struct TemperatureReading {
    /// When the reading was published, in milliseconds of monotonic time.
    pub timestamp_ms: u64,
    /// The measured temperature in microdegrees Celsius, or the error the
    /// final attempt of the cycle failed with.
    pub temperature: Result<i64, DS18B20Error>,
    /// How many retries the cycle spent before publishing.
    pub retries: u8,
}

/// The checksum failure, as the driver reports it.
pub open spec fn spec_checksum_failure() -> Result<SensorData, DS18B20Error> {
    Err(DS18B20Error::OneWireError(OneWireBusError::ChecksumFailed))
}

/// Whether the policy retries after an attempt: only a checksum failure is
/// retried, and only while the retry budget lasts.
pub open spec fn spec_should_retry(
    result: Result<SensorData, DS18B20Error>,
    retries: u8,
) -> bool {
    result == spec_checksum_failure() && retries < CHECKSUM_RETRIES
}

/// The retry counter after feeding a cycle the given attempt results, in
/// order, starting from `retries` spent: the counter climbs by one per
/// retried attempt and freezes at the first published one.
pub open spec fn spec_cycle_final_retries(
    results: Seq<Result<SensorData, DS18B20Error>>,
    retries: u8,
) -> u8
    decreases results.len(),
{
    if results.len() == 0 {
        retries
    } else if spec_should_retry(results[0], retries) {
        spec_cycle_final_retries(results.drop_first(), (retries + 1) as u8)
    } else {
        retries
    }
}

/// How many attempts a cycle consumes from the given results before it
/// publishes (all of them, if every one asks for a retry).
pub open spec fn spec_cycle_attempts(
    results: Seq<Result<SensorData, DS18B20Error>>,
    retries: u8,
) -> int
    decreases results.len(),
{
    if results.len() == 0 {
        0
    } else if spec_should_retry(results[0], retries) {
        1 + spec_cycle_attempts(results.drop_first(), (retries + 1) as u8)
    } else {
        1
    }
}

proof fn lemma_cycle_bound_from(results: Seq<Result<SensorData, DS18B20Error>>, retries: u8)
    requires
        retries <= CHECKSUM_RETRIES,
    ensures
        spec_cycle_final_retries(results, retries) <= CHECKSUM_RETRIES,
        spec_cycle_attempts(results, retries) <= CHECKSUM_RETRIES + 1 - retries,
    decreases results.len(),
{
    if results.len() > 0 && spec_should_retry(results[0], retries) {
        lemma_cycle_bound_from(results.drop_first(), (retries + 1) as u8);
    }
}

/// The retry budget is a hard bound: whatever the attempts return, one
/// cycle never retries more than `CHECKSUM_RETRIES` times, so it makes at
/// most `CHECKSUM_RETRIES + 1` attempts in all.
pub proof fn lemma_retry_bound(results: Seq<Result<SensorData, DS18B20Error>>)
    ensures
        spec_cycle_final_retries(results, 0) <= CHECKSUM_RETRIES,
        spec_cycle_attempts(results, 0) <= CHECKSUM_RETRIES + 1,
{
    lemma_cycle_bound_from(results, 0);
}

proof fn lemma_checksum_exhaustion_from(
    results: Seq<Result<SensorData, DS18B20Error>>,
    retries: u8,
)
    requires
        retries <= CHECKSUM_RETRIES,
        results.len() > CHECKSUM_RETRIES - retries,
        forall|i: int| 0 <= i < results.len() ==> results[i] == spec_checksum_failure(),
    ensures
        spec_cycle_attempts(results, retries) == CHECKSUM_RETRIES + 1 - retries,
        spec_cycle_final_retries(results, retries) == CHECKSUM_RETRIES,
    decreases results.len(),
{
    if retries < CHECKSUM_RETRIES {
        lemma_checksum_exhaustion_from(results.drop_first(), (retries + 1) as u8);
    }
}

/// A driver that fails every attempt with a checksum error exhausts the
/// budget exactly: the cycle makes `CHECKSUM_RETRIES + 1` attempts in all
/// and publishes with the full retry count.
pub proof fn lemma_checksum_retry_exhaustion(results: Seq<Result<SensorData, DS18B20Error>>)
    requires
        results.len() > CHECKSUM_RETRIES,
        forall|i: int| 0 <= i < results.len() ==> results[i] == spec_checksum_failure(),
    ensures
        spec_cycle_attempts(results, 0) == CHECKSUM_RETRIES + 1,
        spec_cycle_final_retries(results, 0) == CHECKSUM_RETRIES,
{
    lemma_checksum_exhaustion_from(results, 0);
}

/// The retry state of one sampling cycle.
pub struct SamplingPolicy {
    retries: u8,
}

impl SamplingPolicy {
    /// How many retries this cycle has spent so far.
    pub closed spec fn retries(&self) -> u8 {
        self.retries
    }

    /// A fresh cycle: no retries spent.
    pub fn new() -> (p: Self)
        ensures
            p.retries() == 0,
    {
        SamplingPolicy { retries: 0 }
    }

    /// How many retries this cycle has spent so far.
    pub fn retry_count(&self) -> (n: u8)
        ensures
            n == self.retries(),
    {
        self.retries
    }

    /// Feeds the outcome of one conversion-and-read attempt to the policy.
    /// Returns true when the cycle must run another attempt (spending one
    /// retry), and false when it must publish the outcome as it stands.
    pub fn record_attempt(&mut self, result: &Result<SensorData, DS18B20Error>) -> (retry: bool)
        ensures
            retry == spec_should_retry(*result, old(self).retries()),
            retry ==> final(self).retries() == old(self).retries() + 1,
            !retry ==> final(self).retries() == old(self).retries(),
    {
        let is_checksum_failure = match result {
            Err(DS18B20Error::OneWireError(OneWireBusError::ChecksumFailed)) => true,
            _ => false,
        };
        if is_checksum_failure && self.retries < CHECKSUM_RETRIES {
            self.retries = self.retries + 1;
            true
        } else {
            false
        }
    }

    /// Builds the one reading this cycle publishes: the timestamp, the
    /// temperature in microdegrees Celsius (or the attempt's error,
    /// unchanged), and the retries spent.
    pub fn publish(&self, timestamp_ms: u64, result: Result<SensorData, DS18B20Error>) -> (reading:
        TemperatureReading)
        ensures
            reading.timestamp_ms == timestamp_ms,
            reading.retries == self.retries(),
            reading.temperature == match result {
                Ok(data) => Ok::<i64, DS18B20Error>(data.spec_temperature_micro_celsius() as i64),
                Err(e) => Err::<i64, DS18B20Error>(e),
            },
    {
        let temperature = match result {
            Ok(data) => Ok(data.temperature_micro_celsius()),
            Err(e) => Err(e),
        };
        TemperatureReading { timestamp_ms, temperature, retries: self.retries }
    }
}

} // verus!
