//! An in-memory log storage, with a fixed character budget.
//!
//! Records are kept oldest first. Adding a record evicts just enough of the
//! oldest records to make room; a record too large for the whole budget is
//! replaced by a fixed warning, which the minimum capacity always fits.
//! Timestamps come from the caller: the store itself has no clock.

use vstd::prelude::*;

verus! {

/// Severity of one log record.
#[derive(Clone, Copy, Debug, PartialEq, Eq, Structural)]
pub enum Level {
    Trace,
    Debug,
    Info,
    Warn,
    Error,
}

impl Level {
    /// The four-letter tag conventionally printed for this level.
    pub open spec fn spec_label(self) -> Seq<char> {
        match self {
            Level::Trace => "TRCE"@,
            Level::Debug => "DEBG"@,
            Level::Info => "INFO"@,
            Level::Warn => "WARN"@,
            Level::Error => "ERRO"@,
        }
    }

    /// The four-letter tag conventionally printed for this level.
    pub fn label(&self) -> (r: &'static str)
        ensures
            r@ == self.spec_label(),
    {
        match self {
            Level::Trace => "TRCE",
            Level::Debug => "DEBG",
            Level::Info => "INFO",
            Level::Warn => "WARN",
            Level::Error => "ERRO",
        }
    }
}

/// One stored log record.
#[derive(Clone, Debug, PartialEq)]
pub struct Record {
    /// When the record was logged, in milliseconds of monotonic time.
    pub timestamp_ms: u64,
    /// Its severity.
    pub level: Level,
    /// Its text.
    pub text: String,
}

/// The warning stored in place of a record too large for the whole budget.
pub open spec fn discard_text() -> Seq<char> {
    "log discarded: too large for storage"@
}

/// Total characters of text held in `records`.
pub open spec fn total_len(records: Seq<Record>) -> int
    decreases records.len(),
{
    if records.len() == 0 {
        0
    } else {
        records[0].text@.len() + total_len(records.drop_first())
    }
}

proof fn lemma_total_len_nonneg(records: Seq<Record>)
    ensures
        total_len(records) >= 0,
    decreases records.len(),
{
    if records.len() > 0 {
        lemma_total_len_nonneg(records.drop_first());
    }
}

proof fn lemma_total_len_push(records: Seq<Record>, record: Record)
    ensures
        total_len(records.push(record)) == total_len(records) + record.text@.len(),
    decreases records.len(),
{
    if records.len() == 0 {
        assert(records.push(record).drop_first() =~= Seq::<Record>::empty());
        assert(records.push(record)[0] == record);
        assert(total_len(Seq::<Record>::empty()) == 0);
    } else {
        lemma_total_len_push(records.drop_first(), record);
        assert(records.push(record).drop_first() =~= records.drop_first().push(record));
    }
}

/// What adding one record does: the text (or the discard warning, if the
/// text outgrows the whole budget) becomes the newest record, after the
/// fewest oldest records were evicted that make it fit.
pub open spec fn add_record_post(
    prior: LogStorage,
    now: LogStorage,
    timestamp_ms: u64,
    level: Level,
    text: Seq<char>,
) -> bool {
    let stored_level = if text.len() <= prior.capacity() {
        level
    } else {
        Level::Warn
    };
    let stored_text = if text.len() <= prior.capacity() {
        text
    } else {
        discard_text()
    };
    &&& now.capacity() == prior.capacity()
    &&& now.records_view().len() >= 1
    &&& now.records_view().last().timestamp_ms == timestamp_ms
    &&& now.records_view().last().level == stored_level
    &&& now.records_view().last().text@ == stored_text
    &&& exists|d: int|
        {
            &&& 0 <= d <= prior.records_view().len()
            &&& now.records_view().drop_last() == #[trigger] prior.records_view().skip(d)
            &&& total_len(prior.records_view().skip(d)) + stored_text.len() <= prior.capacity()
            &&& d > 0 ==> total_len(prior.records_view().skip(d - 1)) + stored_text.len()
                > prior.capacity()
        }
}

/// The in-memory log storage.
pub struct LogStorage {
    /// Stored records, oldest first.
    records: Vec<Record>,
    /// Characters currently stored.
    utilization: usize,
    /// The character budget.
    capacity: usize,
}

impl LogStorage {
    /// The stored records, oldest first.
    pub closed spec fn records_view(&self) -> Seq<Record> {
        self.records@
    }

    /// The character budget.
    pub closed spec fn capacity(&self) -> int {
        self.capacity as int
    }

    /// The storage accounts its contents exactly, within budget, and the
    /// budget fits the discard warning.
    pub open spec fn wf(&self) -> bool {
        &&& self.spec_utilization() == total_len(self.records_view())
        &&& total_len(self.records_view()) <= self.capacity()
        &&& discard_text().len() <= self.capacity()
    }

    /// Characters currently stored.
    pub closed spec fn spec_utilization(&self) -> int {
        self.utilization as int
    }

    /// A fresh, empty storage with the given character budget, which must
    /// at least fit the discard warning.
    pub fn init(capacity: usize) -> (storage: LogStorage)
        requires
            capacity >= 36,
        ensures
            storage.wf(),
            storage.capacity() == capacity,
            storage.records_view().len() == 0,
    {
        proof {
            reveal_strlit("log discarded: too large for storage");
        }
        LogStorage { records: Vec::new(), utilization: 0, capacity }
    }

    /// Stores one record, evicting the fewest oldest records that make it
    /// fit; a text larger than the whole budget is replaced by the discard
    /// warning at `Warn` level.
    pub fn add_record(&mut self, timestamp_ms: u64, level: Level, text: String)
        requires
            old(self).wf(),
        ensures
            final(self).wf(),
            add_record_post(*old(self), *final(self), timestamp_ms, level, text@),
    {
        broadcast use vstd::string::to_string_from_display_ensures_for_str;

        let text_len = text.as_str().unicode_len();
        // A record that cannot fit even an empty storage is discarded, and
        // the discard warning (which always fits) is stored instead.
        let (level, text, text_len): (Level, String, usize) = if text_len > self.capacity {
            proof {
                reveal_strlit("log discarded: too large for storage");
            }
            let fallback: String = "log discarded: too large for storage".to_string();
            let fallback_len = fallback.as_str().unicode_len();
            (Level::Warn, fallback, fallback_len)
        } else {
            (level, text, text_len)
        };
        let ghost stored_text = text@;
        // Evict the oldest records until the new text fits.
        let ghost mut evicted: int = 0;
        while self.capacity - self.utilization < text_len
            invariant
                self.capacity == old(self).capacity(),
                0 <= evicted <= old(self).records_view().len(),
                self.records@ == old(self).records_view().skip(evicted),
                self.spec_utilization() == total_len(self.records@),
                total_len(self.records@) <= self.capacity,
                text_len == stored_text.len() && text_len <= self.capacity,
                evicted > 0 ==> total_len(old(self).records_view().skip(evicted - 1)) + text_len
                    > self.capacity,
            decreases self.records@.len(),
        {
            proof {
                if self.records@.len() == 0 {
                    assert(total_len(self.records@) == 0);
                }
                lemma_total_len_nonneg(self.records@.drop_first());
            }
            let removed = self.records.remove(0);
            let removed_len = removed.text.as_str().unicode_len();
            self.utilization = self.utilization - removed_len;
            proof {
                evicted = evicted + 1;
                assert(self.records@ =~= old(self).records_view().skip(evicted));
            }
        }
        self.utilization = self.utilization + text_len;
        let record = Record { timestamp_ms, level, text };
        proof {
            lemma_total_len_push(self.records@, record);
        }
        self.records.push(record);
        proof {
            assert(final(self).records_view().drop_last() =~= old(self).records_view().skip(
                evicted,
            ));
        }
    }

    /// Forgets every record.
    pub fn clear(&mut self)
        requires
            old(self).wf(),
        ensures
            final(self).wf(),
            final(self).records_view().len() == 0,
            final(self).capacity() == old(self).capacity(),
    {
        self.utilization = 0;
        self.records.clear();
    }

    /// The stored records, oldest first.
    pub fn records(&self) -> (r: &Vec<Record>)
        ensures
            r@ == self.records_view(),
    {
        &self.records
    }

    /// Stores a `Trace` record.
    pub fn trace(&mut self, timestamp_ms: u64, text: String)
        requires
            old(self).wf(),
        ensures
            final(self).wf(),
            add_record_post(*old(self), *final(self), timestamp_ms, Level::Trace, text@),
    {
        self.add_record(timestamp_ms, Level::Trace, text);
    }

    /// Stores a `Debug` record.
    pub fn debug(&mut self, timestamp_ms: u64, text: String)
        requires
            old(self).wf(),
        ensures
            final(self).wf(),
            add_record_post(*old(self), *final(self), timestamp_ms, Level::Debug, text@),
    {
        self.add_record(timestamp_ms, Level::Debug, text);
    }

    /// Stores an `Info` record.
    pub fn info(&mut self, timestamp_ms: u64, text: String)
        requires
            old(self).wf(),
        ensures
            final(self).wf(),
            add_record_post(*old(self), *final(self), timestamp_ms, Level::Info, text@),
    {
        self.add_record(timestamp_ms, Level::Info, text);
    }

    /// Stores a `Warn` record.
    pub fn warn(&mut self, timestamp_ms: u64, text: String)
        requires
            old(self).wf(),
        ensures
            final(self).wf(),
            add_record_post(*old(self), *final(self), timestamp_ms, Level::Warn, text@),
    {
        self.add_record(timestamp_ms, Level::Warn, text);
    }

    /// Stores an `Error` record.
    pub fn error(&mut self, timestamp_ms: u64, text: String)
        requires
            old(self).wf(),
        ensures
            final(self).wf(),
            add_record_post(*old(self), *final(self), timestamp_ms, Level::Error, text@),
    {
        self.add_record(timestamp_ms, Level::Error, text);
    }
}

} // verus!
