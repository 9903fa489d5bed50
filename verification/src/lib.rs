//! Core logic of a single-wire temperature-sensing display controller.
//!
//! The heart of the crate is a software-timed 1-Wire bus protocol engine:
//! reset and presence detection, bit and byte transfer (least-significant
//! bit first) in timed slots, device selection, the binary-search device
//! discovery, and CRC-8 validation. On top of it sit the DS18B20 sensor
//! driver and the sampling policy with its bounded retry on checksum
//! failures. Around them stand the appliance's power state machine, the
//! in-memory log storage, and the message vocabulary of its control tasks.
//!
//! The engine is generic over [`line::OneWireLine`], the one open-drain
//! line it owns; every operation's contract states the exact sequence of
//! pulses, waits and samples it performs, and how its result follows from
//! the sampled levels. [`sim`] provides verified simulated lines for
//! running the engine without hardware.

pub mod buzzer;
pub mod crc;
pub mod ds18b20;
pub mod line;
pub mod memlog;
pub mod onewire;
pub mod pin_control;
pub mod sampling;
pub mod sim;
pub mod state;
pub mod types;

use vstd::prelude::*;

verus! {

} // verus!
