//! The event log: a bounded record of what the daemon did, oldest entries leaving first.

use std::collections::VecDeque;
use vstd::prelude::*;

verus! {

/// How an entry of the log is to be read.
#[derive(Debug, Clone, Copy, PartialEq, Eq, Structural)]
pub enum LogLevel {
    Info,
    Success,
    Warning,
    Error,
}

/// One entry of the log. It is never changed once it is made.
#[derive(Debug)]
pub struct LogEntry {
    /// The number of the entry. Numbers rise by one from entry to entry, so a reader who
    /// finds a gap knows that entries were evicted before it read them.
    pub id: u64,
    /// When the entry was made, in seconds since the epoch.
    pub timestamp: u64,
    pub level: LogLevel,
    pub message: String,
}

impl Clone for LogEntry {
    fn clone(&self) -> (r: LogEntry)
        ensures
            r == *self,
    {
        LogEntry {
            id: self.id,
            timestamp: self.timestamp,
            level: self.level,
            message: self.message.clone(),
        }
    }
}

/// The last `retention` entries of `all`, or all of them where there are no more.
pub open spec fn retained(all: Seq<LogEntry>, retention: nat) -> Seq<LogEntry> {
    if all.len() <= retention {
        all
    } else {
        all.skip(all.len() - retention)
    }
}

/// What a log that retains `retention` entries holds after `items` were appended to
/// `start`, one after the other.
pub open spec fn append_all(start: Seq<LogEntry>, retention: nat, items: Seq<LogEntry>) -> Seq<
    LogEntry,
>
    decreases items.len(),
{
    if items.len() == 0 {
        start
    } else {
        append_all(retained(start.push(items[0]), retention), retention, items.skip(1))
    }
}

/// Whether the numbers of the entries rise by one from each entry to the next.
pub open spec fn ids_consecutive(entries: Seq<LogEntry>) -> bool {
    forall|i: int| 0 <= i < entries.len() ==> (#[trigger] entries[i]).id == entries[0].id + i
}

/// The entries of `entries` whose number is above `after`.
pub open spec fn entries_after(entries: Seq<LogEntry>, after: u64) -> Seq<LogEntry> {
    entries.filter(|e: LogEntry| e.id > after)
}

/// A log that keeps the newest entries, up to a fixed number of them.
#[derive(Debug)]
pub struct EventLog {
    entries: VecDeque<LogEntry>,
    retention: usize,
    next_id: u64,
}

impl EventLog {
    /// What holds of every log: it holds no more entries than it retains, and their
    /// numbers rise by one up to the number that comes next.
    pub closed spec fn wf(&self) -> bool {
        &&& self.entries@.len() <= self.retention
        &&& ids_consecutive(self.entries@)
        &&& self.entries@.len() > 0 ==> self.entries@[0].id + self.entries@.len() == self.next_id
    }

    /// The retained entries, oldest first.
    pub closed spec fn entries(&self) -> Seq<LogEntry> {
        self.entries@
    }

    /// How many entries the log retains at most.
    pub closed spec fn retention(&self) -> nat {
        self.retention as nat
    }

    /// The number that the next entry gets.
    pub closed spec fn next_id(&self) -> u64 {
        self.next_id
    }

    /// An empty log that retains up to `retention` entries.
    pub fn new(retention: usize) -> (log: EventLog)
        ensures
            log.wf(),
            log.entries() == Seq::<LogEntry>::empty(),
            log.retention() == retention,
            log.next_id() == 0,
    {
        EventLog { entries: VecDeque::new(), retention, next_id: 0 }
    }

    /// The number of retained entries.
    pub fn len(&self) -> (n: usize)
        requires
            self.wf(),
        ensures
            n == self.entries().len(),
            n <= self.retention(),
    {
        self.entries.len()
    }

    /// Whether the log holds no entry.
    pub fn is_empty(&self) -> (b: bool)
        ensures
            b == (self.entries().len() == 0),
    {
        self.entries.len() == 0
    }

    /// How many entries the log retains at most.
    pub fn capacity(&self) -> (n: usize)
        ensures
            n == self.retention(),
    {
        self.retention
    }

    /// Appends an entry and returns its number. Where the log is full the oldest entry
    /// leaves; the others keep their order. Once every number has been given out, nothing
    /// is appended and nothing returned.
    pub fn append(&mut self, timestamp: u64, level: LogLevel, message: String) -> (id: Option<u64>)
        requires
            old(self).wf(),
        ensures
            final(self).wf(),
            final(self).retention() == old(self).retention(),
            old(self).next_id() < u64::MAX ==> {
                &&& id == Some(old(self).next_id())
                &&& final(self).next_id() == old(self).next_id() + 1
                &&& final(self).entries() == retained(
                    old(self).entries().push(
                        LogEntry { id: old(self).next_id(), timestamp, level, message },
                    ),
                    old(self).retention(),
                )
            },
            old(self).next_id() == u64::MAX ==> {
                &&& id is None
                &&& final(self).next_id() == old(self).next_id()
                &&& final(self).entries() == old(self).entries()
            },
    {
        if self.next_id == u64::MAX {
            return None;
        }
        let id = self.next_id;
        let entry = LogEntry { id, timestamp, level, message };
        let ghost before = self.entries@;
        if self.retention == 0 {
            self.next_id = id + 1;
            assert(retained(before.push(entry), 0) == before);
            return Some(id);
        }
        if self.entries.len() == self.retention {
            self.entries.pop_front();
        }
        self.entries.push_back(entry);
        self.next_id = id + 1;
        assert(self.entries@ == retained(before.push(entry), self.retention as nat));
        Some(id)
    }

    /// Removes every entry. The numbers go on from where they were.
    pub fn clear(&mut self)
        requires
            old(self).wf(),
        ensures
            final(self).wf(),
            final(self).entries() == Seq::<LogEntry>::empty(),
            final(self).retention() == old(self).retention(),
            final(self).next_id() == old(self).next_id(),
    {
        self.entries = VecDeque::new();
    }

    /// Changes how many entries the log retains. Where it holds more, the oldest leave.
    pub fn set_retention(&mut self, retention: usize)
        requires
            old(self).wf(),
        ensures
            final(self).wf(),
            final(self).entries() == retained(old(self).entries(), retention as nat),
            final(self).retention() == retention,
            final(self).next_id() == old(self).next_id(),
    {
        let ghost before = self.entries@;
        let mut kept: VecDeque<LogEntry> = VecDeque::new();
        let len = self.entries.len();
        let from: usize = if len > retention {
            len - retention
        } else {
            0
        };
        let mut i: usize = from;
        while i < len
            invariant
                from <= i <= len,
                len == self.entries@.len(),
                self.entries@ == before,
                kept@ == before.subrange(from as int, i as int),
            decreases len - i,
        {
            kept.push_back(self.entries[i].clone());
            i += 1;
        }
        assert(kept@ == retained(before, retention as nat));
        self.entries = kept;
        self.retention = retention;
    }

    /// The retained entries, oldest first.
    pub fn snapshot(&self) -> (r: Vec<LogEntry>)
        requires
            self.wf(),
        ensures
            r@ == self.entries(),
            ids_consecutive(r@),
            r@.len() > 0 ==> r@[0].id + r@.len() == self.next_id(),
    {
        let mut r: Vec<LogEntry> = Vec::new();
        let mut i: usize = 0;
        while i < self.entries.len()
            invariant
                i <= self.entries@.len(),
                r@ == self.entries@.take(i as int),
            decreases self.entries@.len() - i,
        {
            r.push(self.entries[i].clone());
            i += 1;
            assert(self.entries@.take(i as int) == self.entries@.take(i - 1).push(
                self.entries@[i - 1],
            ));
        }
        assert(self.entries@.take(i as int) == self.entries@);
        r
    }

    /// The retained entries whose number is above `after`, oldest first: what a reader
    /// that has seen the entry `after` has yet to see.
    pub fn since(&self, after: u64) -> (r: Vec<LogEntry>)
        ensures
            r@ == entries_after(self.entries(), after),
    {
        let mut r: Vec<LogEntry> = Vec::new();
        let mut i: usize = 0;
        let ghost pred = |e: LogEntry| e.id > after;
        while i < self.entries.len()
            invariant
                i <= self.entries@.len(),
                pred == |e: LogEntry| e.id > after,
                r@ == self.entries@.take(i as int).filter(pred),
            decreases self.entries@.len() - i,
        {
            proof {
                let prefix = self.entries@.take(i as int);
                let longer = self.entries@.take(i + 1);
                assert(longer == prefix.push(self.entries@[i as int]));
                assert(longer.drop_last() == prefix);
                reveal(Seq::filter);
            }
            if self.entries[i].id > after {
                r.push(self.entries[i].clone());
            }
            i += 1;
        }
        assert(self.entries@.take(i as int) == self.entries@);
        r
    }
}

/// The retained part of what was retained before is the retained part of the whole.
pub proof fn lemma_retained_push(all: Seq<LogEntry>, retention: nat, entry: LogEntry)
    ensures
        retained(retained(all, retention).push(entry), retention) == retained(
            all.push(entry),
            retention,
        ),
{
}

/// Appending entries one by one to a log leaves the newest of them, as many as the log
/// retains, in the order in which they came.
pub proof fn lemma_append_all(start: Seq<LogEntry>, retention: nat, items: Seq<LogEntry>)
    ensures
        append_all(retained(start, retention), retention, items) == retained(
            start + items,
            retention,
        ),
    decreases items.len(),
{
    if items.len() == 0 {
        assert(start + items == start);
    } else {
        let next = retained(start, retention).push(items[0]);
        lemma_retained_push(start, retention, items[0]);
        lemma_append_all(start.push(items[0]), retention, items.skip(1));
        assert(start.push(items[0]) + items.skip(1) == start + items);
    }
}

/// Appending `retention + k` entries to an empty log leaves exactly `retention` of them:
/// the `k` oldest are gone, and the others stand in the order in which they came.
pub proof fn lemma_ring_keeps_newest(retention: nat, k: nat, items: Seq<LogEntry>)
    requires
        items.len() == retention + k,
    ensures
        append_all(Seq::<LogEntry>::empty(), retention, items) == items.skip(k as int),
        append_all(Seq::<LogEntry>::empty(), retention, items).len() == retention,
{
    let empty = Seq::<LogEntry>::empty();
    lemma_append_all(empty, retention, items);
    assert(empty + items == items);
    assert(retained(empty, retention) == empty);
    if k == 0 {
        assert(items.skip(0) == items);
    }
}

} // verus!
