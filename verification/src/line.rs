//! Abstract model of the single shared open-drain line.
//!
//! The protocol engine owns one bidirectional line with a passive pull-up:
//! it can drive the line low, release it (letting the pull-up restore the
//! high level unless a device holds it down), sample the level, and wait a
//! given number of microseconds. Everything the engine does to the line is
//! recorded, in order, in a ghost log of [`LineOp`] values; the engine's
//! contracts are stated as exact shapes of that log, so that the protocol
//! timing and the bit order are pinned down for every implementation of the
//! line, hardware or simulated.

use vstd::prelude::*;

verus! {

/// One action taken on the open-drain line.
pub enum LineOp {
    /// The master drove the line low.
    Low,
    /// The master released the line to the pull-up.
    High,
    /// The master waited the given number of microseconds.
    Wait(u32),
    /// The master sampled the line and saw this level (`true` = high).
    Sample(bool),
}

/// An open-drain line with a microsecond-granularity delay source.
///
/// Each method appends exactly one operation to the ghost log. Nothing here
/// constrains what `sample` returns: the sampled level is decided by the
/// line itself (the devices on the bus, or a simulation of them).
pub trait OneWireLine: Sized {
    /// Everything done to the line so far, oldest first.
    spec fn log(&self) -> Seq<LineOp>;

    /// Drive the line low.
    fn drive_low(&mut self)
        ensures
            final(self).log() == old(self).log().push(LineOp::Low),
    ;

    /// Stop driving the line; the pull-up raises it unless a device holds it.
    fn release(&mut self)
        ensures
            final(self).log() == old(self).log().push(LineOp::High),
    ;

    /// Block for `us` microseconds without touching the line.
    fn wait_micros(&mut self, us: u32)
        ensures
            final(self).log() == old(self).log().push(LineOp::Wait(us)),
    ;

    /// Read the present level of the line (`true` = high).
    fn sample(&mut self) -> (high: bool)
        ensures
            final(self).log() == old(self).log().push(LineOp::Sample(high)),
    ;
}

/// The levels sampled in `ops`, oldest first.
pub open spec fn samples_of(ops: Seq<LineOp>) -> Seq<bool>
    decreases ops.len(),
{
    if ops.len() == 0 {
        Seq::empty()
    } else {
        let rest = samples_of(ops.drop_last());
        match ops.last() {
            LineOp::Sample(level) => rest.push(level),
            _ => rest,
        }
    }
}

/// The portion a log grew by: `new_log` with the `old_log` prefix removed.
pub open spec fn appended(old_log: Seq<LineOp>, new_log: Seq<LineOp>) -> Seq<LineOp> {
    new_log.subrange(old_log.len() as int, new_log.len() as int)
}

/// Appending one operation appends its sample, if it is one.
pub proof fn lemma_samples_of_push(ops: Seq<LineOp>, op: LineOp)
    ensures
        samples_of(ops.push(op)) == match op {
            LineOp::Sample(level) => samples_of(ops).push(level),
            _ => samples_of(ops),
        },
{
    assert(ops.push(op).drop_last() =~= ops);
}

/// Sampled levels distribute over concatenation of logs.
pub proof fn lemma_samples_of_concat(a: Seq<LineOp>, b: Seq<LineOp>)
    ensures
        samples_of(a + b) == samples_of(a) + samples_of(b),
    decreases b.len(),
{
    if b.len() == 0 {
        assert(a + b =~= a);
        assert(samples_of(a) + samples_of(b) =~= samples_of(a));
    } else {
        lemma_samples_of_concat(a, b.drop_last());
        assert((a + b).drop_last() =~= a + b.drop_last());
        assert((a + b).last() == b.last());
        lemma_samples_of_push(a + b.drop_last(), b.last());
        assert((a + b.drop_last()).push(b.last()) =~= a + b);
        match b.last() {
            LineOp::Sample(level) => {
                assert(samples_of(a) + samples_of(b) =~= (samples_of(a) + samples_of(
                    b.drop_last(),
                )).push(level));
            },
            _ => {
                assert(samples_of(b) == samples_of(b.drop_last()));
            },
        }
    }
}

} // verus!
