//! Simulated open-drain lines, for exercising the engine without hardware.
//!
//! [`ScriptedLine`] replays a fixed script of sample levels: good for fault
//! injection (a bus that never floats high, a presence window nobody
//! answers) and for playing back the joint answers of a set of devices to
//! the search algorithm. [`LoopbackLine`] behaves like a device that
//! remembers every bit written to it and plays the bits back through read
//! slots, in order: good for checking that a byte written to the wire and
//! read back comes out unchanged.
//!
//! Both implement [`OneWireLine`], so everything proved of the engine holds
//! over them; what they answer to `sample` is their own affair, exactly as
//! it would be the devices' on a real bus.

use crate::line::{LineOp, OneWireLine};
use vstd::prelude::*;

verus! {

/// A line that answers `sample` from a fixed script, then reads high (the
/// idle pull-up level) once the script is used up. Drives and waits are
/// accepted and ignored.
pub struct ScriptedLine {
    script: Vec<bool>,
    position: usize,
    log: Ghost<Seq<LineOp>>,
}

impl ScriptedLine {
    /// A line that will answer the given sample levels, in order.
    pub fn new(script: Vec<bool>) -> (line: Self)
        ensures
            line.log() == Seq::<LineOp>::empty(),
    {
        ScriptedLine { script, position: 0, log: Ghost(Seq::empty()) }
    }
}

impl OneWireLine for ScriptedLine {
    closed spec fn log(&self) -> Seq<LineOp> {
        self.log@
    }

    fn drive_low(&mut self) {
        proof {
            self.log@ = self.log@.push(LineOp::Low);
        }
    }

    fn release(&mut self) {
        proof {
            self.log@ = self.log@.push(LineOp::High);
        }
    }

    fn wait_micros(&mut self, us: u32) {
        proof {
            self.log@ = self.log@.push(LineOp::Wait(us));
        }
    }

    fn sample(&mut self) -> (high: bool) {
        let high = if self.position < self.script.len() {
            let level = self.script[self.position];
            self.position = self.position + 1;
            level
        } else {
            true
        };
        proof {
            self.log@ = self.log@.push(LineOp::Sample(high));
        }
        high
    }
}

/// A line with one echo device on it: every bit the master writes is
/// stored, and read slots play the stored bits back in order. A low pulse
/// of reset length forgets everything. With nothing left to play back, the
/// line idles high.
pub struct LoopbackLine {
    /// The master is currently holding the line low.
    driving_low: bool,
    /// Accumulated length of the current low pulse, microseconds (saturating).
    low_micros: u32,
    /// A short low pulse just ended: the slot is a write-1 unless the
    /// master samples first, which makes it a read slot.
    short_release: bool,
    /// Every bit written so far, oldest first.
    stored: Vec<bool>,
    /// The next stored bit a read slot will play back.
    next_out: usize,
    log: Ghost<Seq<LineOp>>,
}

/// Low pulses up to this long start a slot without writing a 0.
const SHORT_PULSE_MAX: u32 = 15;

/// Low pulses at least this long write a 0.
const ZERO_PULSE_MIN: u32 = 60;

/// Low pulses at least this long reset the device.
const RESET_PULSE_MIN: u32 = 480;

/// Cap for the accumulated low time; far above every classification bound.
const LOW_TIME_CAP: u32 = 100000;

impl LoopbackLine {
    /// A fresh loopback device with nothing stored.
    pub fn new() -> (line: Self)
        ensures
            line.log() == Seq::<LineOp>::empty(),
    {
        LoopbackLine {
            driving_low: false,
            low_micros: 0,
            short_release: false,
            stored: Vec::new(),
            next_out: 0,
            log: Ghost(Seq::empty()),
        }
    }

    /// Commits a pending short pulse as a write-1 slot: the master started
    /// a slot, never sampled, and moved on.
    fn commit_pending(&mut self)
        ensures
            final(self).log() == old(self).log(),
    {
        if self.short_release {
            self.stored.push(true);
            self.short_release = false;
        }
    }
}

impl OneWireLine for LoopbackLine {
    closed spec fn log(&self) -> Seq<LineOp> {
        self.log@
    }

    fn drive_low(&mut self) {
        self.commit_pending();
        self.driving_low = true;
        self.low_micros = 0;
        proof {
            self.log@ = self.log@.push(LineOp::Low);
        }
    }

    fn release(&mut self) {
        if self.driving_low {
            self.driving_low = false;
            if self.low_micros >= RESET_PULSE_MIN {
                // A reset pulse: the device forgets its state.
                self.stored = Vec::new();
                self.next_out = 0;
                self.short_release = false;
            } else if self.low_micros >= ZERO_PULSE_MIN {
                // The master held the line through the sampling window.
                self.stored.push(false);
                self.short_release = false;
            } else if self.low_micros <= SHORT_PULSE_MAX {
                // Slot started; a sample decides read, the next pulse write-1.
                self.short_release = true;
            } else {
                // A pulse in no defined band writes nothing.
                self.short_release = false;
            }
        }
        proof {
            self.log@ = self.log@.push(LineOp::High);
        }
    }

    fn wait_micros(&mut self, us: u32) {
        if self.driving_low {
            let add = if us < LOW_TIME_CAP {
                us
            } else {
                LOW_TIME_CAP
            };
            self.low_micros = if self.low_micros < LOW_TIME_CAP {
                self.low_micros + add
            } else {
                self.low_micros
            };
        }
        proof {
            self.log@ = self.log@.push(LineOp::Wait(us));
        }
    }

    fn sample(&mut self) -> (high: bool) {
        let high = if self.driving_low {
            false
        } else if self.short_release {
            // A sample inside a just-started slot makes it a read slot:
            // play back the next stored bit.
            self.short_release = false;
            if self.next_out < self.stored.len() {
                let bit = self.stored[self.next_out];
                self.next_out = self.next_out + 1;
                bit
            } else {
                true
            }
        } else {
            true
        };
        proof {
            self.log@ = self.log@.push(LineOp::Sample(high));
        }
        high
    }
}

/// What the device side of the line is currently doing.
enum DevicePhase {
    /// Nothing in progress; devices answer nothing.
    Idle,
    /// A reset went out; devices are collecting the next command byte.
    AwaitCommand,
    /// The search command went out; devices answer bit pairs and drop out
    /// as the master announces its choices.
    Search,
}

/// A line with a whole set of devices on it, answering the way real
/// devices would: a presence pulse after every reset, and, once the search
/// command byte arrives, the wired-AND search protocol — every still
/// participating device sends its address bit and then the complement, and
/// devices whose bit differs from the master's answered choice stop
/// participating until the next reset.
pub struct DevicesLine {
    /// The devices' addresses, each with its participation flag.
    participants: Vec<(u64, bool)>,
    /// The master is currently holding the line low.
    driving_low: bool,
    /// Accumulated length of the current low pulse, microseconds (saturating).
    low_micros: u32,
    /// A short low pulse just ended: read slot if the master samples,
    /// write-1 if another pulse follows first.
    short_release: bool,
    /// A reset just went out: the first idle sample is the presence pulse.
    presence_pending: bool,
    /// Bits of the command byte collected so far.
    command_buffer: u8,
    /// How many command bits have arrived.
    command_bits: u8,
    /// Which address bit position the search stands at.
    search_index: u8,
    /// 0: send the bit; 1: send the complement; 2: await the master's choice.
    search_step: u8,
    phase: DevicePhase,
    log: Ghost<Seq<LineOp>>,
}

impl DevicesLine {
    /// A line carrying the given devices, all idle.
    pub fn new(devices: Vec<u64>) -> (line: Self)
        ensures
            line.log() == Seq::<LineOp>::empty(),
    {
        let mut participants: Vec<(u64, bool)> = Vec::new();
        let mut i: usize = 0;
        while i < devices.len()
            decreases devices.len() - i,
        {
            participants.push((devices[i], true));
            i = i + 1;
        }
        DevicesLine {
            participants,
            driving_low: false,
            low_micros: 0,
            short_release: false,
            presence_pending: false,
            command_buffer: 0,
            command_bits: 0,
            search_index: 0,
            search_step: 0,
            phase: DevicePhase::Idle,
            log: Ghost(Seq::empty()),
        }
    }

    /// The level of the wired-AND line while the participating devices
    /// send address bit `index` (or, with `complement`, its inverse): high
    /// only if nobody pulls it low.
    fn joint_level(&self, index: u8, complement: bool) -> (high: bool)
    {
        let mut high = true;
        let mut i: usize = 0;
        while i < self.participants.len()
            decreases self.participants.len() - i,
        {
            let (address, active) = self.participants[i];
            if active && index < 64 {
                let bit = (address >> index) & 1 == 1;
                let sent = if complement {
                    !bit
                } else {
                    bit
                };
                // A device sending 0 pulls the line low.
                if !sent {
                    high = false;
                }
            }
            i = i + 1;
        }
        high
    }

    /// Devices whose address bit `index` differs from the master's chosen
    /// bit stop participating in this search.
    fn drop_mismatched(&mut self, index: u8, chosen: bool)
        ensures
            final(self).log() == old(self).log(),
    {
        let mut i: usize = 0;
        while i < self.participants.len()
            invariant
                self.log() == old(self).log(),
            decreases self.participants.len() - i,
        {
            let (address, active) = self.participants[i];
            if active && index < 64 {
                let bit = (address >> index) & 1 == 1;
                if bit != chosen {
                    self.participants.set(i, (address, false));
                }
            }
            i = i + 1;
        }
    }

    /// One bit arrived from the master through a write slot.
    fn receive_bit(&mut self, bit: bool)
        ensures
            final(self).log() == old(self).log(),
    {
        match self.phase {
            DevicePhase::Idle => {},
            DevicePhase::AwaitCommand => {
                if bit && self.command_bits < 8 {
                    self.command_buffer = self.command_buffer | (1u8 << self.command_bits);
                }
                if self.command_bits < 8 {
                    self.command_bits = self.command_bits + 1;
                }
                if self.command_bits == 8 {
                    if self.command_buffer == 0xf0 {
                        self.phase = DevicePhase::Search;
                        self.search_index = 0;
                        self.search_step = 0;
                    } else {
                        // Other commands address no logic the simulation
                        // carries; devices go quiet until the next reset.
                        self.phase = DevicePhase::Idle;
                    }
                }
            },
            DevicePhase::Search => {
                if self.search_step == 2 {
                    self.drop_mismatched(self.search_index, bit);
                    self.search_step = 0;
                    if self.search_index < 63 {
                        self.search_index = self.search_index + 1;
                    } else {
                        self.phase = DevicePhase::Idle;
                    }
                }
                // A write slot outside step 2 matches no protocol state;
                // devices ignore it.
            },
        }
    }

    /// All devices reset: presence is announced and every device rejoins.
    fn receive_reset(&mut self)
        ensures
            final(self).log() == old(self).log(),
    {
        let mut i: usize = 0;
        while i < self.participants.len()
            invariant
                self.log() == old(self).log(),
            decreases self.participants.len() - i,
        {
            let (address, _) = self.participants[i];
            self.participants.set(i, (address, true));
            i = i + 1;
        }
        self.presence_pending = self.participants.len() > 0;
        self.command_buffer = 0;
        self.command_bits = 0;
        self.search_step = 0;
        self.search_index = 0;
        self.phase = DevicePhase::AwaitCommand;
        self.short_release = false;
    }
}

impl OneWireLine for DevicesLine {
    closed spec fn log(&self) -> Seq<LineOp> {
        self.log@
    }

    fn drive_low(&mut self) {
        if self.short_release {
            // The previous short pulse was never sampled: a write-1 slot.
            self.short_release = false;
            self.receive_bit(true);
        }
        self.driving_low = true;
        self.low_micros = 0;
        proof {
            self.log@ = self.log@.push(LineOp::Low);
        }
    }

    fn release(&mut self) {
        if self.driving_low {
            self.driving_low = false;
            if self.low_micros >= 480 {
                self.receive_reset();
            } else if self.low_micros >= 60 {
                self.receive_bit(false);
                self.short_release = false;
            } else if self.low_micros <= 15 {
                self.short_release = true;
            } else {
                self.short_release = false;
            }
        }
        proof {
            self.log@ = self.log@.push(LineOp::High);
        }
    }

    fn wait_micros(&mut self, us: u32) {
        if self.driving_low {
            let add = if us < 100000 {
                us
            } else {
                100000
            };
            self.low_micros = if self.low_micros < 100000 {
                self.low_micros + add
            } else {
                self.low_micros
            };
        }
        proof {
            self.log@ = self.log@.push(LineOp::Wait(us));
        }
    }

    fn sample(&mut self) -> (high: bool) {
        let high = if self.driving_low {
            false
        } else if self.short_release {
            // A sampled short pulse is a read slot: the devices answer.
            self.short_release = false;
            match self.phase {
                DevicePhase::Search => {
                    if self.search_step == 0 {
                        let level = self.joint_level(self.search_index, false);
                        self.search_step = 1;
                        level
                    } else if self.search_step == 1 {
                        let level = self.joint_level(self.search_index, true);
                        self.search_step = 2;
                        level
                    } else {
                        true
                    }
                },
                _ => true,
            }
        } else if self.presence_pending {
            // The bare sample right after a reset catches the presence
            // pulse of the devices.
            self.presence_pending = false;
            false
        } else {
            true
        };
        proof {
            self.log@ = self.log@.push(LineOp::Sample(high));
        }
        high
    }
}

} // verus!
