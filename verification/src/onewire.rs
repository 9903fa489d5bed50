//! The single-wire bus protocol engine.
//!
//! One master drives a shared open-drain line. Every transfer is built from
//! timed slots: the master initiates each slot by pulling the line low, and
//! either holds it low (writing a 0), releases it quickly (writing a 1), or
//! releases it and samples the level a device may be holding (reading a
//! bit). Bytes travel least-significant bit first. A transaction starts
//! with a reset pulse followed by a presence window in which any device
//! announces itself by pulling the line low.
//!
//! Each operation's contract states the exact sequence of line operations
//! it performs — pulses, waits, and samples — and how its result is
//! computed from the sampled levels. The timing numbers carry a safety
//! margin of at least 5% over the protocol's minimums and must not be
//! reduced.

use crate::crc::{compute_crc8, crc8};
use crate::line::{appended, samples_of, LineOp, OneWireLine};
use vstd::bytes::{spec_u64_to_le_bytes, u64_to_le_bytes};
use vstd::prelude::*;

verus! {

/// Minimum recovery gap between consecutive write slots, in microseconds.
pub const RECOVERY_TIME: u32 = 1 + 1;

/// Length of one write time slot (spec: 60 to 120 microseconds).
pub const TIME_SLOT: u32 = 60 + 20;

/// Low time initiating a write-1 slot (spec: 1 to 15 microseconds): short
/// enough for the pull-up to restore the line before devices sample it.
pub const WRITE_1_LOW_TIME: u32 = 5;

/// Low time of a write-0 slot: the whole slot (spec: at least 60 microseconds).
pub const WRITE_0_LOW_TIME: u32 = TIME_SLOT;

/// Low time initiating a read slot.
pub const READ_INIT_LOW_TIME: u32 = 6;

/// Wait after releasing the line before sampling the device's bit.
pub const READ_SAMPLE_DELAY: u32 = 9;

/// Remainder of the 70 microsecond read slot after the sample.
pub const READ_SLOT_REMAINDER: u32 = 55;

/// Reset low pulse (spec: at least 480 microseconds, plus a 5% margin).
pub const RESET_LOW_TIME: u32 = 480 + 24;

/// Polls of the presence window, every `PRESENCE_POLL_GAP` microseconds;
/// together they cover the 504 microsecond listen window.
pub const PRESENCE_POLLS: u32 = 26;

/// Gap between presence window polls, in microseconds.
pub const PRESENCE_POLL_GAP: u32 = 20;

/// Polls waiting for the line to float high before a reset, every
/// `WAIT_HIGH_POLL_GAP` microseconds; together they cover 250 microseconds.
pub const WAIT_HIGH_POLLS: u32 = 25;

/// Gap between waiting-for-high polls, in microseconds.
pub const WAIT_HIGH_POLL_GAP: u32 = 10;

/// Command byte starting the normal device search.
pub const SEARCH_NORMAL: u8 = 0xf0;

/// Command byte selecting one device by its full address.
pub const MATCH_ROM: u8 = 0x55;

/// A failure of the bus engine.
#[derive(Clone, Copy, Debug, PartialEq, Eq, Structural)]
pub enum OneWireBusError {
    /// Expected the bus to become high but timed out.
    BusNotHighTimeout,
    /// No device pulled the bus low during reset.
    DeviceNotPresent,
    /// No devices responded to the search request.
    NoResponseToSearch,
    /// CRC-8 checksum failed.
    ChecksumFailed,
}

/// The bus engine: exclusive owner of one open-drain line.
pub struct OneWireBus<L: OneWireLine> {
    line: L,
}

/// The line operations of one written bit: pull low, hold 5 microseconds for
/// a 1 or the whole 80 microsecond slot for a 0, release, and wait out the
/// remainder of the slot.
pub open spec fn write_bit_ops(value: bool) -> Seq<LineOp> {
    if value {
        seq![
            LineOp::Low,
            LineOp::Wait(WRITE_1_LOW_TIME),
            LineOp::High,
            LineOp::Wait((TIME_SLOT - WRITE_1_LOW_TIME) as u32),
        ]
    } else {
        seq![
            LineOp::Low,
            LineOp::Wait(WRITE_0_LOW_TIME),
            LineOp::High,
            LineOp::Wait((TIME_SLOT - WRITE_0_LOW_TIME) as u32),
        ]
    }
}

/// The line operations of one read bit that sampled `level`: pull low 6
/// microseconds, release, wait 9 microseconds, sample, wait out the slot.
pub open spec fn read_bit_ops(level: bool) -> Seq<LineOp> {
    seq![
        LineOp::Low,
        LineOp::Wait(READ_INIT_LOW_TIME),
        LineOp::High,
        LineOp::Wait(READ_SAMPLE_DELAY),
        LineOp::Sample(level),
        LineOp::Wait(READ_SLOT_REMAINDER),
    ]
}

/// Bit `i` of `byte`, counting from the least significant.
pub open spec fn bit_of(byte: u8, i: u8) -> bool {
    (byte >> i) & 1 == 1
}

/// The line operations of the first `n` bits of one written byte,
/// least-significant bit first, each preceded by the recovery gap.
pub open spec fn write_bits_ops(byte: u8, n: int) -> Seq<LineOp>
    decreases n,
{
    if n <= 0 {
        Seq::empty()
    } else {
        write_bits_ops(byte, n - 1) + seq![LineOp::Wait(RECOVERY_TIME)] + write_bit_ops(
            bit_of(byte, (n - 1) as u8),
        )
    }
}

/// The line operations of one whole written byte.
pub open spec fn write_byte_ops(byte: u8) -> Seq<LineOp> {
    write_bits_ops(byte, 8)
}

/// The line operations of a run of written bytes, in order.
pub open spec fn write_bytes_ops(bytes: Seq<u8>) -> Seq<LineOp>
    decreases bytes.len(),
{
    if bytes.len() == 0 {
        Seq::empty()
    } else {
        write_bytes_ops(bytes.drop_last()) + write_byte_ops(bytes.last())
    }
}

/// The line operations of a run of read bits that sampled `levels`, in order.
pub open spec fn read_bits_ops(levels: Seq<bool>) -> Seq<LineOp>
    decreases levels.len(),
{
    if levels.len() == 0 {
        Seq::empty()
    } else {
        read_bits_ops(levels.drop_last()) + read_bit_ops(levels.last())
    }
}

/// The byte assembled from up to eight bits, least-significant bit first.
pub open spec fn byte_from_bits(bits: Seq<bool>) -> u8
    recommends
        bits.len() <= 8,
    decreases bits.len(),
{
    if bits.len() == 0 {
        0
    } else {
        byte_from_bits(bits.drop_last()) | (if bits.last() {
            1u8 << ((bits.len() - 1) as u8)
        } else {
            0u8
        })
    }
}

/// The eight bits of a byte, least-significant first.
pub open spec fn byte_bits(byte: u8) -> Seq<bool> {
    Seq::new(8, |i: int| bit_of(byte, i as u8))
}

/// Writing a bit leaves no sample in the log.
pub proof fn lemma_samples_of_write_bit_ops(value: bool)
    ensures
        samples_of(write_bit_ops(value)) == Seq::<bool>::empty(),
{
    let ops = write_bit_ops(value);
    let o3 = ops.drop_last();
    let o2 = o3.drop_last();
    let o1 = o2.drop_last();
    let o0 = o1.drop_last();
    assert(o0 =~= Seq::<LineOp>::empty());
    assert(samples_of(ops) == samples_of(o3));
    assert(samples_of(o3) == samples_of(o2));
    assert(samples_of(o2) == samples_of(o1));
    assert(samples_of(o1) == samples_of(o0));
}

/// Reading a bit leaves exactly its sampled level in the log.
pub proof fn lemma_samples_of_read_bit_ops(level: bool)
    ensures
        samples_of(read_bit_ops(level)) == seq![level],
{
    let ops = read_bit_ops(level);
    let o5 = ops.drop_last();
    let o4 = o5.drop_last();
    let o3 = o4.drop_last();
    let o2 = o3.drop_last();
    let o1 = o2.drop_last();
    let o0 = o1.drop_last();
    assert(o0 =~= Seq::<LineOp>::empty());
    assert(samples_of(ops) == samples_of(o5));
    assert(o5.last() == LineOp::Sample(level));
    assert(samples_of(o5) == samples_of(o4).push(level));
    assert(samples_of(o4) == samples_of(o3));
    assert(samples_of(o3) == samples_of(o2));
    assert(samples_of(o2) == samples_of(o1));
    assert(samples_of(o1) == samples_of(o0));
    assert(samples_of(ops) =~= seq![level]);
}

/// A run of read bits samples exactly its levels.
pub proof fn lemma_samples_of_read_bits_ops(levels: Seq<bool>)
    ensures
        samples_of(read_bits_ops(levels)) == levels,
    decreases levels.len(),
{
    if levels.len() == 0 {
        assert(read_bits_ops(levels) =~= Seq::<LineOp>::empty());
        assert(samples_of(read_bits_ops(levels)) =~= levels);
    } else {
        lemma_samples_of_read_bits_ops(levels.drop_last());
        crate::line::lemma_samples_of_concat(
            read_bits_ops(levels.drop_last()),
            read_bit_ops(levels.last()),
        );
        lemma_samples_of_read_bit_ops(levels.last());
        assert(levels.drop_last() + seq![levels.last()] =~= levels);
    }
}

impl<L: OneWireLine> OneWireBus<L> {
    /// Everything this engine has done to its line, oldest first.
    pub closed spec fn log(&self) -> Seq<LineOp> {
        self.line.log()
    }

    /// Takes exclusive ownership of the line and releases it, as the bus
    /// must idle high.
    pub fn new(line: L) -> (bus: Self)
        ensures
            bus.log() == line.log().push(LineOp::High),
    {
        let mut line = line;
        line.release();
        OneWireBus { line }
    }

    /// Verifies the Dallas/Maxim CRC-8 over `data`, trailing check byte
    /// included: the transfer is accepted exactly when the checksum of the
    /// whole sequence is zero.
    pub fn check_crc8(data: &[u8]) -> (r: Result<(), OneWireBusError>)
        ensures
            r == if crc8(data@) == 0 {
                Ok::<(), OneWireBusError>(())
            } else {
                Err::<(), OneWireBusError>(OneWireBusError::ChecksumFailed)
            },
    {
        if compute_crc8(data) != 0 {
            return Err(OneWireBusError::ChecksumFailed);
        }
        Ok(())
    }

    /// Writes one bit as a timed slot.
    pub(crate) fn write_bit(&mut self, value: bool)
        ensures
            final(self).log() == old(self).log() + write_bit_ops(value),
    {
        if value {
            self.line.drive_low();
            self.line.wait_micros(WRITE_1_LOW_TIME);
            self.line.release();
            self.line.wait_micros(TIME_SLOT - WRITE_1_LOW_TIME);
        } else {
            self.line.drive_low();
            self.line.wait_micros(WRITE_0_LOW_TIME);
            self.line.release();
            self.line.wait_micros(TIME_SLOT - WRITE_0_LOW_TIME);
        }
        proof {
            assert(final(self).log() =~= old(self).log() + write_bit_ops(value));
        }
    }

    /// Reads one bit: initiate the slot, let the device present its level,
    /// sample it, and wait out the slot.
    pub(crate) fn read_bit(&mut self) -> (level: bool)
        ensures
            final(self).log() == old(self).log() + read_bit_ops(level),
    {
        self.line.drive_low();
        self.line.wait_micros(READ_INIT_LOW_TIME);
        self.line.release();
        self.line.wait_micros(READ_SAMPLE_DELAY);
        let level = self.line.sample();
        self.line.wait_micros(READ_SLOT_REMAINDER);
        proof {
            assert(final(self).log() =~= old(self).log() + read_bit_ops(level));
        }
        level
    }

    /// Writes one byte, least-significant bit first, with a recovery gap
    /// before each slot.
    pub fn write_byte(&mut self, byte: u8)
        ensures
            final(self).log() == old(self).log() + write_byte_ops(byte),
    {
        let mut i: u8 = 0;
        while i < 8
            invariant
                i <= 8,
                self.log() == old(self).log() + write_bits_ops(byte, i as int),
            decreases 8 - i,
        {
            self.line.wait_micros(RECOVERY_TIME);
            let bit_value = (byte >> i) & 1 == 1;
            self.write_bit(bit_value);
            proof {
                assert(bit_value == bit_of(byte, i));
                assert(self.log() =~= old(self).log() + write_bits_ops(byte, i + 1));
            }
            i = i + 1;
        }
    }

    /// Writes a run of bytes, in order.
    pub(crate) fn write_bytes(&mut self, bytes: &[u8])
        ensures
            final(self).log() == old(self).log() + write_bytes_ops(bytes@),
    {
        let mut i: usize = 0;
        while i < bytes.len()
            invariant
                i <= bytes@.len(),
                self.log() == old(self).log() + write_bytes_ops(bytes@.take(i as int)),
            decreases bytes@.len() - i,
        {
            self.write_byte(bytes[i]);
            proof {
                assert(bytes@.take(i + 1).drop_last() =~= bytes@.take(i as int));
                assert(self.log() =~= old(self).log() + write_bytes_ops(bytes@.take(i + 1)));
            }
            i = i + 1;
        }
        proof {
            assert(bytes@.take(bytes@.len() as int) =~= bytes@);
        }
    }

    /// Reads one byte as eight read slots, assembling the sampled levels
    /// least-significant bit first.
    pub fn read_byte(&mut self) -> (byte: u8)
        ensures
            ({
                let ops = appended(old(self).log(), final(self).log());
                let levels = samples_of(ops);
                &&& final(self).log() == old(self).log() + ops
                &&& ops == read_bits_ops(levels)
                &&& levels.len() == 8
                &&& byte == byte_from_bits(levels)
            }),
    {
        let mut byte: u8 = 0;
        let mut i: u8 = 0;
        let ghost mut levels: Seq<bool> = Seq::empty();
        proof {
            assert(read_bits_ops(levels) =~= Seq::<LineOp>::empty());
            assert(self.log() =~= old(self).log() + read_bits_ops(levels));
        }
        while i < 8
            invariant
                i <= 8,
                levels.len() == i as int,
                self.log() == old(self).log() + read_bits_ops(levels),
                byte == byte_from_bits(levels),
            decreases 8 - i,
        {
            let level = self.read_bit();
            proof {
                let new_levels = levels.push(level);
                assert(new_levels.drop_last() =~= levels);
                assert(read_bits_ops(new_levels) == read_bits_ops(levels) + read_bit_ops(level));
                assert(self.log() =~= old(self).log() + read_bits_ops(new_levels));
                assert(byte_from_bits(new_levels) == byte_from_bits(levels) | (if level {
                    1u8 << i
                } else {
                    0u8
                }));
            }
            if level {
                byte = byte | (1u8 << i);
            } else {
                proof {
                    assert(byte | 0u8 == byte) by (bit_vector);
                }
            }
            proof {
                levels = levels.push(level);
            }
            i = i + 1;
        }
        proof {
            let ops = appended(old(self).log(), final(self).log());
            assert(ops =~= read_bits_ops(levels));
            lemma_samples_of_read_bits_ops(levels);
        }
        byte
    }

    /// Reads `count` bytes, in order.
    pub fn read_bytes(&mut self, count: usize) -> (bytes: Vec<u8>)
        ensures
            ({
                let ops = appended(old(self).log(), final(self).log());
                let levels = samples_of(ops);
                &&& final(self).log() == old(self).log() + ops
                &&& ops == read_bits_ops(levels)
                &&& levels.len() == 8 * count
                &&& bytes@.len() == count
                &&& forall|b: int|
                    0 <= b < count ==> bytes@[b] == byte_from_bits(
                        #[trigger] levels.subrange(8 * b, 8 * b + 8),
                    )
            }),
    {
        let mut bytes: Vec<u8> = Vec::new();
        let mut i: usize = 0;
        let ghost mut levels: Seq<bool> = Seq::empty();
        proof {
            assert(read_bits_ops(levels) =~= Seq::<LineOp>::empty());
            assert(self.log() =~= old(self).log() + read_bits_ops(levels));
        }
        while i < count
            invariant
                i <= count,
                levels.len() == 8 * i,
                self.log() == old(self).log() + read_bits_ops(levels),
                bytes@.len() == i,
                forall|b: int|
                    0 <= b < i ==> bytes@[b] == byte_from_bits(
                        #[trigger] levels.subrange(8 * b, 8 * b + 8),
                    ),
            decreases count - i,
        {
            let ghost before = self.log();
            let byte = self.read_byte();
            proof {
                let byte_ops = appended(before, self.log());
                let byte_levels = samples_of(byte_ops);
                lemma_read_bits_ops_concat(levels, byte_levels);
                assert(self.log() =~= old(self).log() + read_bits_ops(levels + byte_levels));
                let new_levels = levels + byte_levels;
                assert(new_levels.subrange(8 * i as int, 8 * i + 8) =~= byte_levels);
                assert forall|b: int| 0 <= b < i implies #[trigger] new_levels.subrange(
                    8 * b,
                    8 * b + 8,
                ) =~= levels.subrange(8 * b, 8 * b + 8) by {};
                levels = new_levels;
            }
            bytes.push(byte);
            i = i + 1;
        }
        proof {
            let ops = appended(old(self).log(), final(self).log());
            assert(ops =~= read_bits_ops(levels));
            lemma_samples_of_read_bits_ops(levels);
        }
        bytes
    }
}

/// Runs of read bits concatenate.
pub proof fn lemma_read_bits_ops_concat(a: Seq<bool>, b: Seq<bool>)
    ensures
        read_bits_ops(a + b) == read_bits_ops(a) + read_bits_ops(b),
    decreases b.len(),
{
    if b.len() == 0 {
        assert(a + b =~= a);
        assert(read_bits_ops(a) + read_bits_ops(b) =~= read_bits_ops(a));
    } else {
        lemma_read_bits_ops_concat(a, b.drop_last());
        assert((a + b).drop_last() =~= a + b.drop_last());
        assert((a + b).last() == b.last());
        assert(read_bits_ops(a) + read_bits_ops(b) =~= read_bits_ops(a) + read_bits_ops(
            b.drop_last(),
        ) + read_bit_ops(b.last()));
    }
}

/// `n` polls that found the line low: sample, then wait `gap` microseconds.
pub open spec fn low_polls(n: int, gap: u32) -> Seq<LineOp>
    decreases n,
{
    if n <= 0 {
        Seq::empty()
    } else {
        low_polls(n - 1, gap) + seq![LineOp::Sample(false), LineOp::Wait(gap)]
    }
}

/// `n` presence polls that found the line high (no device announcing).
pub open spec fn absent_polls(n: int) -> Seq<LineOp>
    decreases n,
{
    if n <= 0 {
        Seq::empty()
    } else {
        absent_polls(n - 1) + seq![LineOp::Sample(true), LineOp::Wait(PRESENCE_POLL_GAP)]
    }
}

/// `n` waits of `gap` microseconds each, with no sampling.
pub open spec fn waits(n: int, gap: u32) -> Seq<LineOp>
    decreases n,
{
    if n <= 0 {
        Seq::empty()
    } else {
        waits(n - 1, gap) + seq![LineOp::Wait(gap)]
    }
}

/// The transcript of a reset that timed out waiting for the line to float
/// high: release, then the full train of failed polls.
pub open spec fn reset_timeout_ops() -> Seq<LineOp> {
    seq![LineOp::High] + low_polls(WAIT_HIGH_POLLS as int, WAIT_HIGH_POLL_GAP)
}

/// The transcript of a reset up to and including the low pulse: release,
/// `k` failed polls, the poll that saw the line high, then the 504
/// microsecond low pulse and the release that opens the presence window.
pub open spec fn reset_pulse_ops(k: int) -> Seq<LineOp> {
    seq![LineOp::High] + low_polls(k, WAIT_HIGH_POLL_GAP) + seq![
        LineOp::Sample(true),
        LineOp::Low,
        LineOp::Wait(RESET_LOW_TIME),
        LineOp::High,
    ]
}

/// The transcript of a reset in which no device pulled the line low in any
/// of the 26 presence polls.
pub open spec fn reset_no_device_ops(k: int) -> Seq<LineOp> {
    reset_pulse_ops(k) + absent_polls(PRESENCE_POLLS as int)
}

/// The transcript of a successful reset: after the pulse, `j` polls saw the
/// line high, one poll caught a device holding it low, and the remaining
/// polls only waited out the 504 microsecond window.
pub open spec fn reset_ok_ops(k: int, j: int) -> Seq<LineOp> {
    reset_pulse_ops(k) + absent_polls(j) + seq![
        LineOp::Sample(false),
        LineOp::Wait(PRESENCE_POLL_GAP),
    ] + waits(PRESENCE_POLLS as int - 1 - j, PRESENCE_POLL_GAP)
}

/// The transcript of selecting one device: the match command byte followed
/// by the eight address bytes, least-significant byte first.
pub open spec fn match_address_ops(address: u64) -> Seq<LineOp> {
    write_byte_ops(MATCH_ROM) + write_bytes_ops(spec_u64_to_le_bytes(address))
}

impl<L: OneWireLine> OneWireBus<L> {
    /// Polls the released line until it floats high, for at most 25 polls
    /// 10 microseconds apart (a 250 microsecond window).
    fn wait_until_high(&mut self) -> (r: Result<(), OneWireBusError>)
        ensures
            ({
                let ops = appended(old(self).log(), final(self).log());
                &&& final(self).log() == old(self).log() + ops
                &&& match r {
                    Ok(()) => exists|k: int|
                        0 <= k < WAIT_HIGH_POLLS && ops == #[trigger] low_polls(
                            k,
                            WAIT_HIGH_POLL_GAP,
                        ).push(LineOp::Sample(true)),
                    Err(e) => e == OneWireBusError::BusNotHighTimeout && ops == low_polls(
                        WAIT_HIGH_POLLS as int,
                        WAIT_HIGH_POLL_GAP,
                    ),
                }
            }),
    {
        let mut i: u32 = 0;
        while i < WAIT_HIGH_POLLS
            invariant
                i <= WAIT_HIGH_POLLS,
                self.log() == old(self).log() + low_polls(i as int, WAIT_HIGH_POLL_GAP),
            decreases WAIT_HIGH_POLLS - i,
        {
            let high = self.line.sample();
            if high {
                proof {
                    assert(appended(old(self).log(), self.log()) =~= low_polls(
                        i as int,
                        WAIT_HIGH_POLL_GAP,
                    ).push(LineOp::Sample(true)));
                }
                return Ok(());
            }
            self.line.wait_micros(WAIT_HIGH_POLL_GAP);
            proof {
                assert(self.log() =~= old(self).log() + low_polls(
                    i + 1 as int,
                    WAIT_HIGH_POLL_GAP,
                ));
            }
            i = i + 1;
        }
        proof {
            assert(appended(old(self).log(), self.log()) =~= low_polls(
                WAIT_HIGH_POLLS as int,
                WAIT_HIGH_POLL_GAP,
            ));
        }
        Err(OneWireBusError::BusNotHighTimeout)
    }

    /// Resets the bus and listens for a presence pulse.
    ///
    /// Releases the bus and waits up to 250 microseconds for it to float
    /// high (failing with `BusNotHighTimeout` otherwise), drives it low for
    /// 504 microseconds, releases it, and then samples for 26 polls 20
    /// microseconds apart, watching for any device pulling the line low.
    /// Succeeds exactly when a low level was observed in that window, and
    /// fails with `DeviceNotPresent` otherwise.
    pub fn reset(&mut self) -> (r: Result<(), OneWireBusError>)
        ensures
            ({
                let ops = appended(old(self).log(), final(self).log());
                &&& final(self).log() == old(self).log() + ops
                &&& match r {
                    Ok(()) => exists|k: int, j: int|
                        0 <= k < WAIT_HIGH_POLLS && 0 <= j < PRESENCE_POLLS && ops == #[trigger] reset_ok_ops(
                            k,
                            j,
                        ),
                    Err(OneWireBusError::DeviceNotPresent) => exists|k: int|
                        0 <= k < WAIT_HIGH_POLLS && ops == #[trigger] reset_no_device_ops(k),
                    Err(OneWireBusError::BusNotHighTimeout) => ops == reset_timeout_ops(),
                    _ => false,
                }
            }),
    {
        // Release the bus prior to a reset (the line is open-drain).
        self.line.release();
        match self.wait_until_high() {
            Err(e) => {
                proof {
                    assert(appended(old(self).log(), self.log()) =~= reset_timeout_ops());
                }
                return Err(e);
            },
            Ok(()) => {},
        }
        let ghost k = choose|k: int|
            0 <= k < WAIT_HIGH_POLLS && appended(old(self).log().push(LineOp::High), self.log())
                == #[trigger] low_polls(k, WAIT_HIGH_POLL_GAP).push(LineOp::Sample(true));
        // The master pulls the line low for 504 microseconds, then releases it.
        self.line.drive_low();
        self.line.wait_micros(RESET_LOW_TIME);
        self.line.release();
        let ghost prefix = self.log();
        proof {
            assert(prefix =~= old(self).log() + reset_pulse_ops(k));
        }
        // The master listens: devices pull the line low if they are present.
        let mut device_present = false;
        let ghost mut j = 0int;
        let mut i: u32 = 0;
        while i < PRESENCE_POLLS
            invariant
                i <= PRESENCE_POLLS,
                !device_present ==> self.log() == prefix + absent_polls(i as int),
                device_present ==> 0 <= j < i as int && self.log() == prefix + absent_polls(j)
                    + seq![LineOp::Sample(false), LineOp::Wait(PRESENCE_POLL_GAP)] + waits(
                    i - 1 - j,
                    PRESENCE_POLL_GAP,
                ),
            decreases PRESENCE_POLLS - i,
        {
            if !device_present {
                let level = self.line.sample();
                if !level {
                    device_present = true;
                    proof {
                        j = i as int;
                    }
                    self.line.wait_micros(PRESENCE_POLL_GAP);
                    proof {
                        assert(self.log() =~= prefix + absent_polls(j) + seq![
                            LineOp::Sample(false),
                            LineOp::Wait(PRESENCE_POLL_GAP),
                        ] + waits(0, PRESENCE_POLL_GAP));
                    }
                } else {
                    self.line.wait_micros(PRESENCE_POLL_GAP);
                    proof {
                        assert(self.log() =~= prefix + absent_polls(i + 1 as int));
                    }
                }
            } else {
                self.line.wait_micros(PRESENCE_POLL_GAP);
                proof {
                    assert(self.log() =~= prefix + absent_polls(j) + seq![
                        LineOp::Sample(false),
                        LineOp::Wait(PRESENCE_POLL_GAP),
                    ] + waits(i - j, PRESENCE_POLL_GAP));
                }
            }
            i = i + 1;
        }
        if device_present {
            proof {
                assert(appended(old(self).log(), self.log()) =~= reset_ok_ops(k, j));
            }
            Ok(())
        } else {
            proof {
                assert(appended(old(self).log(), self.log()) =~= reset_no_device_ops(k));
            }
            Err(OneWireBusError::DeviceNotPresent)
        }
    }

    /// Selects one device on a shared bus: the match command byte, then the
    /// 64-bit address, least-significant byte first, for all subsequent
    /// commands of the transaction.
    pub fn match_address(&mut self, address: u64)
        ensures
            final(self).log() == old(self).log() + match_address_ops(address),
    {
        self.write_byte(MATCH_ROM);
        let bytes = u64_to_le_bytes(address);
        self.write_bytes(bytes.as_slice());
        proof {
            assert(final(self).log() =~= old(self).log() + match_address_ops(address));
        }
    }

    /// Composite helper: reset, select the addressed device, and write one
    /// command byte. Fails immediately, with no retry, if the reset fails.
    pub fn send_command(&mut self, command: u8, address: u64) -> (r: Result<(), OneWireBusError>)
        ensures
            ({
                let ops = appended(old(self).log(), final(self).log());
                &&& final(self).log() == old(self).log() + ops
                &&& match r {
                    Ok(()) => exists|k: int, j: int|
                        0 <= k < WAIT_HIGH_POLLS && 0 <= j < PRESENCE_POLLS && ops == #[trigger] reset_ok_ops(
                            k,
                            j,
                        ) + match_address_ops(address) + write_byte_ops(command),
                    Err(OneWireBusError::DeviceNotPresent) => exists|k: int|
                        0 <= k < WAIT_HIGH_POLLS && ops == #[trigger] reset_no_device_ops(k),
                    Err(OneWireBusError::BusNotHighTimeout) => ops == reset_timeout_ops(),
                    _ => false,
                }
            }),
    {
        match self.reset() {
            Err(e) => {
                return Err(e);
            },
            Ok(()) => {},
        }
        let ghost after_reset = self.log();
        let ghost (k, j) = choose|k: int, j: int|
            0 <= k < WAIT_HIGH_POLLS && 0 <= j < PRESENCE_POLLS && appended(
                old(self).log(),
                after_reset,
            ) == #[trigger] reset_ok_ops(k, j);
        self.match_address(address);
        self.write_byte(command);
        proof {
            assert(appended(old(self).log(), self.log()) =~= reset_ok_ops(k, j)
                + match_address_ops(address) + write_byte_ops(command));
        }
        Ok(())
    }
}

/// The search policy at a discrepancy: when devices disagree on a bit
/// position (both the bit read and the complement read come back low), the
/// chosen bit is 0, so repeated searches over the same devices converge
/// deterministically on the lowest participating address.
pub proof fn lemma_discrepancy_chooses_zero(levels: Seq<bool>, i: int)
    requires
        0 <= i,
        2 * i + 1 < levels.len(),
        !levels[2 * i],
        !levels[2 * i + 1],
    ensures
        !pair_no_response(levels, i),
        !pair_chosen_bit(levels, i),
{
}

/// Assembling the eight bits of a byte, least-significant first, gives the
/// byte back: the round trip underlying loopback symmetry of one byte
/// written to and read back from the wire.
pub proof fn lemma_byte_bits_round_trip(byte: u8)
    ensures
        byte_from_bits(byte_bits(byte)) == byte,
{
    let s = byte_bits(byte);
    let x0: u8 = if bit_of(byte, 0) { 1u8 } else { 0u8 };
    let x1: u8 = if bit_of(byte, 1) { 2u8 } else { 0u8 };
    let x2: u8 = if bit_of(byte, 2) { 4u8 } else { 0u8 };
    let x3: u8 = if bit_of(byte, 3) { 8u8 } else { 0u8 };
    let x4: u8 = if bit_of(byte, 4) { 16u8 } else { 0u8 };
    let x5: u8 = if bit_of(byte, 5) { 32u8 } else { 0u8 };
    let x6: u8 = if bit_of(byte, 6) { 64u8 } else { 0u8 };
    let x7: u8 = if bit_of(byte, 7) { 128u8 } else { 0u8 };
    assert(s.take(1).drop_last() =~= s.take(0));
    assert(s.take(2).drop_last() =~= s.take(1));
    assert(s.take(3).drop_last() =~= s.take(2));
    assert(s.take(4).drop_last() =~= s.take(3));
    assert(s.take(5).drop_last() =~= s.take(4));
    assert(s.take(6).drop_last() =~= s.take(5));
    assert(s.take(7).drop_last() =~= s.take(6));
    assert(s.drop_last() =~= s.take(7));
    assert(s.take(0) =~= Seq::<bool>::empty());
    assert(1u8 << 0u8 == 1 && 1u8 << 1u8 == 2 && 1u8 << 2u8 == 4 && 1u8 << 3u8 == 8 && 1u8 << 4u8
        == 16 && 1u8 << 5u8 == 32 && 1u8 << 6u8 == 64 && 1u8 << 7u8 == 128) by (bit_vector);
    assert(byte_from_bits(s.take(0)) == 0);
    assert(byte_from_bits(s.take(1)) == 0u8 | x0);
    assert(byte_from_bits(s.take(2)) == byte_from_bits(s.take(1)) | x1);
    assert(byte_from_bits(s.take(3)) == byte_from_bits(s.take(2)) | x2);
    assert(byte_from_bits(s.take(4)) == byte_from_bits(s.take(3)) | x3);
    assert(byte_from_bits(s.take(5)) == byte_from_bits(s.take(4)) | x4);
    assert(byte_from_bits(s.take(6)) == byte_from_bits(s.take(5)) | x5);
    assert(byte_from_bits(s.take(7)) == byte_from_bits(s.take(6)) | x6);
    assert(byte_from_bits(s) == byte_from_bits(s.take(7)) | x7);
    assert(0u8 | (if (byte >> 0u8) & 1 == 1 { 1u8 } else { 0u8 }) | (if (byte >> 1u8) & 1 == 1 {
        2u8
    } else {
        0u8
    }) | (if (byte >> 2u8) & 1 == 1 { 4u8 } else { 0u8 }) | (if (byte >> 3u8) & 1 == 1 {
        8u8
    } else {
        0u8
    }) | (if (byte >> 4u8) & 1 == 1 { 16u8 } else { 0u8 }) | (if (byte >> 5u8) & 1 == 1 {
        32u8
    } else {
        0u8
    }) | (if (byte >> 6u8) & 1 == 1 { 64u8 } else { 0u8 }) | (if (byte >> 7u8) & 1 == 1 {
        128u8
    } else {
        0u8
    }) == byte) by (bit_vector);
}

/// Pair `i` of the search level stream: both reads high means no device
/// answered that bit position.
pub open spec fn pair_no_response(levels: Seq<bool>, i: int) -> bool {
    levels[2 * i] && levels[2 * i + 1]
}

/// The bit the search takes at pair `i`: a 1 only when the devices all
/// agree on 1 (first read high, complement read low); on a discrepancy
/// (both reads low) the 0 branch is chosen, so the lowest address wins.
pub open spec fn pair_chosen_bit(levels: Seq<bool>, i: int) -> bool {
    levels[2 * i] && !levels[2 * i + 1]
}

/// Every pair of the level stream got an answer.
pub open spec fn search_levels_ok(levels: Seq<bool>) -> bool {
    forall|i: int| 0 <= i < levels.len() / 2 ==> !#[trigger] pair_no_response(levels, i)
}

/// The address bits chosen for a level stream, least-significant first.
pub open spec fn search_address_bits(levels: Seq<bool>) -> Seq<bool> {
    Seq::new((levels.len() / 2) as nat, |i: int| pair_chosen_bit(levels, i))
}

/// The 64-bit value assembled from up to 64 bits, least-significant first.
pub open spec fn u64_from_bits(bits: Seq<bool>) -> u64
    recommends
        bits.len() <= 64,
    decreases bits.len(),
{
    if bits.len() == 0 {
        0
    } else {
        u64_from_bits(bits.drop_last()) | (if bits.last() {
            1u64 << ((bits.len() - 1) as u64)
        } else {
            0u64
        })
    }
}

/// The line operations of one search step: read the bit and its complement,
/// and, if some device answered, write the chosen bit back so that only
/// matching devices keep participating.
pub open spec fn search_bit_ops(l1: bool, l2: bool) -> Seq<LineOp> {
    read_bit_ops(l1) + read_bit_ops(l2) + if l1 && l2 {
        Seq::<LineOp>::empty()
    } else {
        write_bit_ops(l1 && !l2)
    }
}

/// The line operations of a whole search run that sampled `levels`.
pub open spec fn search_ops(levels: Seq<bool>) -> Seq<LineOp>
    recommends
        levels.len() % 2 == 0,
    decreases levels.len(),
{
    if levels.len() < 2 {
        Seq::empty()
    } else {
        search_ops(levels.take(levels.len() - 2)) + search_bit_ops(
            levels[levels.len() - 2],
            levels[levels.len() - 1],
        )
    }
}

/// One search step samples exactly its two levels.
proof fn lemma_samples_of_search_bit_ops(l1: bool, l2: bool)
    ensures
        samples_of(search_bit_ops(l1, l2)) == seq![l1, l2],
{
    crate::line::lemma_samples_of_concat(read_bit_ops(l1) + read_bit_ops(l2), if l1 && l2 {
        Seq::<LineOp>::empty()
    } else {
        write_bit_ops(l1 && !l2)
    });
    crate::line::lemma_samples_of_concat(read_bit_ops(l1), read_bit_ops(l2));
    lemma_samples_of_read_bit_ops(l1);
    lemma_samples_of_read_bit_ops(l2);
    if l1 && l2 {
        assert(samples_of(Seq::<LineOp>::empty()) =~= Seq::<bool>::empty());
    } else {
        lemma_samples_of_write_bit_ops(l1 && !l2);
    }
    assert(search_bit_ops(l1, l2) =~= (read_bit_ops(l1) + read_bit_ops(l2)) + (if l1 && l2 {
        Seq::<LineOp>::empty()
    } else {
        write_bit_ops(l1 && !l2)
    }));
    assert(samples_of(search_bit_ops(l1, l2)) =~= seq![l1, l2]);
}

/// No bit above the assembled width is ever set.
proof fn lemma_u64_from_bits_high_clear(bits: Seq<bool>, m: u64)
    requires
        bits.len() <= m < 64,
    ensures
        u64_from_bits(bits) & (1u64 << m) == 0,
    decreases bits.len(),
{
    if bits.len() == 0 {
        assert(0u64 & (1u64 << m) == 0) by (bit_vector);
    } else {
        lemma_u64_from_bits_high_clear(bits.drop_last(), m);
        let prev = u64_from_bits(bits.drop_last());
        let j = (bits.len() - 1) as u64;
        if bits.last() {
            assert((prev | (1u64 << j)) & (1u64 << m) == 0) by (bit_vector)
                requires
                    prev & (1u64 << m) == 0,
                    j < m < 64,
            ;
        } else {
            assert((prev | 0u64) & (1u64 << m) == 0) by (bit_vector)
                requires
                    prev & (1u64 << m) == 0,
                    m < 64,
            ;
        }
    }
}

impl<L: OneWireLine> OneWireBus<L> {
    /// Runs the 64-bit binary search over all participating devices,
    /// assuming a reset and the search command have just gone out.
    ///
    /// For each of the 64 address bit positions the devices jointly answer
    /// with the wired-AND of their address bits and then of the
    /// complements. Two high reads mean nobody answered
    /// (`NoResponseToSearch`); otherwise the engine takes the agreed bit,
    /// or 0 on a discrepancy (so exactly the lowest address is discovered),
    /// and writes the choice back, dropping every device that differs.
    pub fn search_address(&mut self) -> (r: Result<u64, OneWireBusError>)
        ensures
            ({
                let ops = appended(old(self).log(), final(self).log());
                let levels = samples_of(ops);
                &&& final(self).log() == old(self).log() + ops
                &&& ops == search_ops(levels)
                &&& levels.len() % 2 == 0
                &&& match r {
                    Ok(address) => {
                        &&& levels.len() == 128
                        &&& search_levels_ok(levels)
                        &&& address == u64_from_bits(search_address_bits(levels))
                    },
                    Err(OneWireBusError::NoResponseToSearch) => {
                        &&& 2 <= levels.len() <= 128
                        &&& pair_no_response(levels, levels.len() / 2 - 1)
                        &&& forall|i: int|
                            0 <= i < levels.len() / 2 - 1 ==> !#[trigger] pair_no_response(
                                levels,
                                i,
                            )
                    },
                    _ => false,
                }
            }),
    {
        // The 64-bit address being assembled, least-significant bit first.
        let mut address: u64 = 0;
        let mut bit_index: u32 = 0;
        let ghost mut levels: Seq<bool> = Seq::empty();
        proof {
            assert(search_ops(levels) =~= Seq::<LineOp>::empty());
            assert(self.log() =~= old(self).log() + search_ops(levels));
            assert(samples_of(search_ops(levels)) =~= levels);
            assert(search_address_bits(levels) =~= Seq::<bool>::empty());
        }
        while bit_index < 64
            invariant
                bit_index <= 64,
                levels.len() == 2 * bit_index,
                self.log() == old(self).log() + search_ops(levels),
                samples_of(search_ops(levels)) == levels,
                search_levels_ok(levels),
                address == u64_from_bits(search_address_bits(levels)),
                search_address_bits(levels).len() == bit_index,
            decreases 64 - bit_index,
        {
            // All participating devices answer the bit and its complement;
            // reading both shows whether they agree or conflict.
            let l1 = self.read_bit();
            let l2 = self.read_bit();
            let ghost new_levels = levels.push(l1).push(l2);
            proof {
                assert(new_levels.take(new_levels.len() - 2) =~= levels);
                assert(search_ops(new_levels) == search_ops(levels) + search_bit_ops(l1, l2));
                crate::line::lemma_samples_of_concat(search_ops(levels), search_bit_ops(l1, l2));
                lemma_samples_of_search_bit_ops(l1, l2);
                assert(levels + seq![l1, l2] =~= new_levels);
                assert(samples_of(search_ops(new_levels)) == new_levels);
                assert forall|i: int| 0 <= i < levels.len() / 2 implies !#[trigger] pair_no_response(
                    new_levels,
                    i,
                ) by {
                    assert(!pair_no_response(levels, i));
                    assert(new_levels[2 * i] == levels[2 * i]);
                    assert(new_levels[2 * i + 1] == levels[2 * i + 1]);
                }
            }
            // The line is active-low: a low read means some device answered 0
            // on the bit (or 1 on the complement read).
            let false_bit = !l1;
            let true_bit = !l2;
            let chosen_bit = match (false_bit, true_bit) {
                (false, false) => {
                    // Both reads high: no device answered the search request.
                    proof {
                        levels = new_levels;
                        assert(self.log() =~= old(self).log() + search_ops(levels));
                        assert(appended(old(self).log(), self.log()) =~= search_ops(levels));
                        assert(pair_no_response(levels, levels.len() / 2 - 1));
                    }
                    return Err(OneWireBusError::NoResponseToSearch);
                },
                // All remaining devices agree on 1.
                (false, true) => true,
                // All remaining devices agree on 0.
                (true, false) => false,
                // Discrepancy: devices differ here. Take the 0 branch, which
                // converges on the lowest participating address.
                (true, true) => false,
            };
            proof {
                assert(chosen_bit == pair_chosen_bit(new_levels, bit_index as int));
                assert(search_address_bits(new_levels) =~= search_address_bits(levels).push(
                    chosen_bit,
                ));
                assert(search_address_bits(new_levels).drop_last() =~= search_address_bits(
                    levels,
                ));
                assert(u64_from_bits(search_address_bits(new_levels)) == u64_from_bits(
                    search_address_bits(levels),
                ) | (if chosen_bit {
                    1u64 << (bit_index as u64)
                } else {
                    0u64
                }));
            }
            // Set or clear this address bit.
            let address_mask = 1u64 << bit_index;
            proof {
                lemma_u64_from_bits_high_clear(search_address_bits(levels), bit_index as u64);
                let prev = u64_from_bits(search_address_bits(levels));
                let i = bit_index as u64;
                assert(prev & !(1u64 << i) == prev && prev | 0u64 == prev && (1u64 << i) == (1u64
                    << i) | 0u64) by (bit_vector)
                    requires
                        prev & (1u64 << i) == 0,
                        i < 64,
                ;
            }
            if chosen_bit {
                address = address | address_mask;
            } else {
                address = address & !address_mask;
            }
            // Answer with the chosen bit: devices that do not match drop out
            // of the rest of the search.
            self.write_bit(chosen_bit);
            proof {
                assert((search_ops(levels) + search_bit_ops(l1, l2)) =~= search_ops(levels)
                    + (read_bit_ops(l1) + read_bit_ops(l2)) + write_bit_ops(chosen_bit));
                assert(self.log() =~= old(self).log() + search_ops(new_levels));
                levels = new_levels;
            }
            bit_index = bit_index + 1;
        }
        proof {
            assert(appended(old(self).log(), self.log()) =~= search_ops(levels));
        }
        Ok(address)
    }

    /// Discovers the address of the first (lowest-address) device on the
    /// bus: reset, emit the search command, run the 64-bit search, and
    /// validate the assembled address with the CRC-8 over its eight bytes.
    pub fn find_first_device(&mut self) -> (r: Result<u64, OneWireBusError>)
        ensures
            ({
                let ops = appended(old(self).log(), final(self).log());
                &&& final(self).log() == old(self).log() + ops
                &&& match r {
                    Ok(address) => {
                        &&& crc8(spec_u64_to_le_bytes(address)) == 0
                        &&& exists|k: int, j: int, levels: Seq<bool>|
                            #![trigger reset_ok_ops(k, j), search_ops(levels)]
                            {
                                &&& 0 <= k < WAIT_HIGH_POLLS
                                &&& 0 <= j < PRESENCE_POLLS
                                &&& ops == reset_ok_ops(k, j) + write_byte_ops(SEARCH_NORMAL)
                                    + search_ops(levels)
                                &&& levels.len() == 128
                                &&& search_levels_ok(levels)
                                &&& address == u64_from_bits(search_address_bits(levels))
                            }
                    },
                    Err(OneWireBusError::ChecksumFailed) => exists|
                        k: int,
                        j: int,
                        levels: Seq<bool>,
                    |
                        #![trigger reset_ok_ops(k, j), search_ops(levels)]
                        {
                            &&& 0 <= k < WAIT_HIGH_POLLS
                            &&& 0 <= j < PRESENCE_POLLS
                            &&& ops == reset_ok_ops(k, j) + write_byte_ops(SEARCH_NORMAL)
                                + search_ops(levels)
                            &&& levels.len() == 128
                            &&& search_levels_ok(levels)
                            &&& crc8(
                                spec_u64_to_le_bytes(u64_from_bits(search_address_bits(levels))),
                            ) != 0
                        },
                    Err(OneWireBusError::NoResponseToSearch) => exists|
                        k: int,
                        j: int,
                        levels: Seq<bool>,
                    |
                        #![trigger reset_ok_ops(k, j), search_ops(levels)]
                        {
                            &&& 0 <= k < WAIT_HIGH_POLLS
                            &&& 0 <= j < PRESENCE_POLLS
                            &&& ops == reset_ok_ops(k, j) + write_byte_ops(SEARCH_NORMAL)
                                + search_ops(levels)
                            &&& levels.len() % 2 == 0
                            &&& 2 <= levels.len() <= 128
                            &&& pair_no_response(levels, levels.len() / 2 - 1)
                            &&& forall|i: int|
                                0 <= i < levels.len() / 2 - 1 ==> !#[trigger] pair_no_response(
                                    levels,
                                    i,
                                )
                        },
                    Err(OneWireBusError::DeviceNotPresent) => exists|k: int|
                        0 <= k < WAIT_HIGH_POLLS && ops == #[trigger] reset_no_device_ops(k),
                    Err(OneWireBusError::BusNotHighTimeout) => ops == reset_timeout_ops(),
                }
            }),
    {
        // Begin the search transaction: every device resets and listens.
        match self.reset() {
            Err(e) => {
                return Err(e);
            },
            Ok(()) => {},
        }
        let ghost after_reset = self.log();
        let ghost (k, j) = choose|k: int, j: int|
            0 <= k < WAIT_HIGH_POLLS && 0 <= j < PRESENCE_POLLS && appended(
                old(self).log(),
                after_reset,
            ) == #[trigger] reset_ok_ops(k, j);
        self.write_byte(SEARCH_NORMAL);
        let ghost after_command = self.log();
        let search_result = self.search_address();
        let ghost levels = samples_of(appended(after_command, self.log()));
        proof {
            assert(appended(old(self).log(), self.log()) =~= reset_ok_ops(k, j) + write_byte_ops(
                SEARCH_NORMAL,
            ) + search_ops(levels));
        }
        let address = match search_result {
            Err(e) => {
                return Err(e);
            },
            Ok(address) => address,
        };
        // Validate the discovered address.
        let address_bytes = u64_to_le_bytes(address);
        match Self::check_crc8(address_bytes.as_slice()) {
            Err(e) => {
                return Err(e);
            },
            Ok(()) => {},
        }
        Ok(address)
    }
}

/// Bit `i` of a 64-bit address, counting from the least significant.
pub open spec fn u64_bit(value: u64, i: u64) -> bool {
    (value >> i) & 1 == 1
}

/// The 64 bits of an address, least-significant first.
pub open spec fn u64_bits(value: u64) -> Seq<bool> {
    Seq::new(64, |i: int| u64_bit(value, i as u64))
}

/// The low `n` bits of a 64-bit value, all others cleared.
pub open spec fn u64_low_mask(n: u64) -> u64 {
    if n >= 64 {
        0xffff_ffff_ffff_ffff
    } else {
        ((1u64 << n) - 1) as u64
    }
}

proof fn lemma_u64_bits_take(value: u64, n: u64)
    requires
        n <= 64,
    ensures
        u64_from_bits(u64_bits(value).take(n as int)) == value & u64_low_mask(n),
    decreases n,
{
    let s = u64_bits(value);
    if n == 0 {
        assert(s.take(0) =~= Seq::<bool>::empty());
        assert(value & u64_low_mask(0) == 0) by (bit_vector)
            requires
                u64_low_mask(0) == ((1u64 << 0u64) - 1) as u64,
        ;
    } else {
        lemma_u64_bits_take(value, (n - 1) as u64);
        let j = (n - 1) as u64;
        assert(s.take(n as int).drop_last() =~= s.take(n - 1));
        assert(s.take(n as int).last() == u64_bit(value, j));
        let prev = u64_from_bits(s.take(n - 1));
        let whole = u64_from_bits(s.take(n as int));
        assert(whole == prev | (if u64_bit(value, j) {
            1u64 << j
        } else {
            0u64
        }));
        if n < 64 {
            assert((value & (((1u64 << j) - 1) as u64)) | (if (value >> j) & 1 == 1 {
                1u64 << j
            } else {
                0u64
            }) == value & (((1u64 << n) - 1) as u64)) by (bit_vector)
                requires
                    j < 63,
                    n == j + 1,
            ;
        } else {
            assert((value & (((1u64 << j) - 1) as u64)) | (if (value >> j) & 1 == 1 {
                1u64 << j
            } else {
                0u64
            }) == value & 0xffff_ffff_ffff_ffffu64) by (bit_vector)
                requires
                    j == 63,
            ;
        }
    }
}

/// Assembling the 64 bits of an address, least-significant first, gives
/// the address back.
pub proof fn lemma_u64_bits_round_trip(value: u64)
    ensures
        u64_from_bits(u64_bits(value)) == value,
{
    lemma_u64_bits_take(value, 64);
    assert(u64_bits(value).take(64) =~= u64_bits(value));
    assert(value & 0xffff_ffff_ffff_ffffu64 == value) by (bit_vector);
}

/// The joint answers of two devices that differ in exactly one bit.
///
/// The line is a wired AND: for each position the active devices send
/// their address bit and then its complement, and the line reads high only
/// if nobody pulls it low. Up to and including the differing position both
/// devices answer; at that position they disagree, so both reads come back
/// low (a discrepancy), the engine answers 0, and the device carrying a 1
/// there stops participating; past it only the lower device answers.
pub open spec fn two_device_levels(lower: u64, higher: u64, k: u64) -> Seq<bool> {
    Seq::new(128, |n: int|
        {
            let i = (n / 2) as u64;
            if n % 2 == 0 {
                if i <= k {
                    u64_bit(lower, i) && u64_bit(higher, i)
                } else {
                    u64_bit(lower, i)
                }
            } else {
                if i <= k {
                    !u64_bit(lower, i) && !u64_bit(higher, i)
                } else {
                    !u64_bit(lower, i)
                }
            }
        })
}

/// Search determinism on a one-bit difference: given two devices whose
/// addresses differ in exactly bit `k`, the joint answers form a valid
/// search run whose outcome is the device with 0 at bit `k` — the engine's
/// 0-branch policy resolves the discrepancy toward the lower address.
pub proof fn lemma_search_prefers_zero_at_discrepancy(lower: u64, higher: u64, k: u64)
    requires
        k < 64,
        !u64_bit(lower, k),
        higher == lower | (1u64 << k),
    ensures
        ({
            let levels = two_device_levels(lower, higher, k);
            &&& levels.len() == 128
            &&& search_levels_ok(levels)
            &&& u64_from_bits(search_address_bits(levels)) == lower
        }),
{
    let levels = two_device_levels(lower, higher, k);
    assert forall|i: u64| i < 64 && i != k implies u64_bit(higher, i) == u64_bit(lower, i) by {
        assert((((lower | (1u64 << k)) >> i) & 1 == 1) == ((lower >> i) & 1 == 1)) by (bit_vector)
            requires
                i < 64,
                k < 64,
                i != k,
        ;
    }
    assert(u64_bit(higher, k)) by {
        assert(((lower | (1u64 << k)) >> k) & 1 == 1) by (bit_vector)
            requires
                k < 64,
        ;
    }
    assert forall|i: int| 0 <= i < 64 implies !pair_no_response(levels, i) by {
        assert(levels[2 * i] == (if i <= k {
            u64_bit(lower, i as u64) && u64_bit(higher, i as u64)
        } else {
            u64_bit(lower, i as u64)
        }));
        assert(levels[2 * i + 1] == (if i <= k {
            !u64_bit(lower, i as u64) && !u64_bit(higher, i as u64)
        } else {
            !u64_bit(lower, i as u64)
        }));
    }
    assert forall|i: int| 0 <= i < 64 implies #[trigger] search_address_bits(levels)[i] == u64_bits(
        lower,
    )[i] by {
        assert(pair_chosen_bit(levels, i) == u64_bit(lower, i as u64));
    }
    assert(search_address_bits(levels) =~= u64_bits(lower));
    lemma_u64_bits_round_trip(lower);
}

} // verus!
