//! The in-memory ring of recent log entries the settings window reads.

use std::collections::VecDeque;

use vstd::prelude::*;

verus! {

broadcast use vstd::std_specs::vecdeque::group_vec_dequeue_axioms;

/// The level of a log entry.
#[derive(Debug, Clone, Copy, PartialEq, Eq, Structural)]
pub enum LogLevel {
    Trace,
    Debug,
    Info,
    Warn,
    Error,
}

/// One recorded log event; `fields` is its fields rendered as a JSON object.
#[derive(Debug, Clone, PartialEq, Eq)]
pub struct LogEntry {
    pub seq: u64,
    pub ts_unix_ms: i64,
    pub level: LogLevel,
    pub target: String,
    pub message: String,
    pub fields: String,
    pub span_path: Vec<String>,
}

/// A copy of `e`.
pub fn copy_entry(e: &LogEntry) -> (r: LogEntry)
    ensures
        r.seq == e.seq,
        r.ts_unix_ms == e.ts_unix_ms,
        r.level == e.level,
        r.target == e.target,
        r.message == e.message,
        r.fields == e.fields,
        r.span_path@ == e.span_path@,
{
    let mut path: Vec<String> = Vec::new();
    let mut i: usize = 0;
    while i < e.span_path.len()
        invariant
            i <= e.span_path@.len(),
            path@ == e.span_path@.take(i as int),
        decreases e.span_path.len() - i,
    {
        path.push(e.span_path[i].clone());
        i = i + 1;
        assert(path@ =~= e.span_path@.take(i as int));
    }
    assert(e.span_path@.take(e.span_path@.len() as int) =~= e.span_path@);
    LogEntry {
        seq: e.seq,
        ts_unix_ms: e.ts_unix_ms,
        level: e.level,
        target: e.target.clone(),
        message: e.message.clone(),
        fields: e.fields.clone(),
        span_path: path,
    }
}

/// `b` holds the same entry as `a`.
pub open spec fn same_entry(a: LogEntry, b: LogEntry) -> bool {
    &&& a.seq == b.seq
    &&& a.ts_unix_ms == b.ts_unix_ms
    &&& a.level == b.level
    &&& a.target == b.target
    &&& a.message == b.message
    &&& a.fields == b.fields
    &&& a.span_path@ == b.span_path@
}

/// The sequence numbers of `entries` rise strictly and stay below `next`.
pub open spec fn seqs_below(entries: Seq<LogEntry>, next: u64) -> bool {
    &&& forall|i: int, j: int|
        0 <= i < j < entries.len() ==> (#[trigger] entries[i]).seq < (#[trigger] entries[j]).seq
    &&& forall|i: int| 0 <= i < entries.len() ==> (#[trigger] entries[i]).seq < next
}

/// The entries numbered above `since`, in order.
pub open spec fn entries_since(entries: Seq<LogEntry>, since: u64) -> Seq<LogEntry> {
    entries.filter(|e: LogEntry| e.seq > since)
}

/// The most recent log entries: at most `capacity` of them when the
/// capacity is positive, each numbered in the order it arrived, from 1.
pub struct RingBuffer {
    capacity: usize,
    next_seq: u64,
    entries: VecDeque<LogEntry>,
}

impl RingBuffer {
    /// The capacity given at construction.
    pub closed spec fn spec_capacity(&self) -> nat {
        self.capacity as nat
    }

    /// The number the next entry gets.
    pub closed spec fn spec_next_seq(&self) -> nat {
        self.next_seq as nat
    }

    /// The kept entries, oldest first.
    pub closed spec fn spec_entries(&self) -> Seq<LogEntry> {
        self.entries@
    }

    /// Entries are numbered in rising order below the next number, and
    /// never exceed the capacity once it is positive.
    pub closed spec fn wf(&self) -> bool {
        &&& 1 <= self.next_seq
        &&& seqs_below(self.entries@, self.next_seq)
        &&& self.capacity > 0 ==> self.entries@.len() <= self.capacity
        &&& self.entries@.len() <= self.next_seq - 1
    }

    /// An empty ring; the first entry gets number 1.
    pub fn new(capacity: usize) -> (r: Self)
        ensures
            r.wf(),
            r.spec_capacity() == capacity,
            r.spec_next_seq() == 1,
            r.spec_entries() == Seq::<LogEntry>::empty(),
    {
        RingBuffer { capacity, next_seq: 1, entries: VecDeque::new() }
    }

    /// Numbers `entry` with the next number and keeps it, dropping the
    /// oldest entry when the ring is full. Returns the number given.
    pub fn push(&mut self, entry: LogEntry) -> (r: u64)
        requires
            old(self).wf(),
            old(self).spec_next_seq() < u64::MAX,
        ensures
            final(self).wf(),
            r == old(self).spec_next_seq(),
            final(self).spec_next_seq() == r + 1,
            final(self).spec_capacity() == old(self).spec_capacity(),
            final(self).spec_entries() == ring_after_push(
                old(self).spec_entries(),
                old(self).spec_capacity(),
                entry,
                r,
            ),
    {
        let seq = self.next_seq;
        self.next_seq = seq + 1;
        let mut entry = entry;
        entry.seq = seq;
        if self.entries.len() == self.capacity {
            let _ = self.entries.pop_front();
        }
        self.entries.push_back(entry);
        seq
    }

    /// Copies of the entries numbered above `since_seq`, oldest first.
    pub fn slice_since(&self, since_seq: u64) -> (r: Vec<LogEntry>)
        requires
            self.wf(),
        ensures
            r@.len() == entries_since(self.spec_entries(), since_seq).len(),
            forall|k: int|
                0 <= k < r@.len() ==> #[trigger] same_entry(
                    r@[k],
                    entries_since(self.spec_entries(), since_seq)[k],
                ),
    {
        let ghost all = self.entries@;
        let ghost pred = |e: LogEntry| e.seq > since_seq;
        let mut out: Vec<LogEntry> = Vec::new();
        let mut i: usize = 0;
        while i < self.entries.len()
            invariant
                i <= all.len(),
                all == self.entries@,
                pred == (|e: LogEntry| e.seq > since_seq),
                out@.len() == all.take(i as int).filter(pred).len(),
                forall|k: int|
                    0 <= k < out@.len() ==> #[trigger] same_entry(
                        out@[k],
                        all.take(i as int).filter(pred)[k],
                    ),
            decreases self.entries.len() - i,
        {
            let e = &self.entries[i];
            proof {
                assert(all.take(i + 1).drop_last() =~= all.take(i as int));
                all.take(i as int).lemma_filter_push(all[i as int], pred);
                assert(all.take(i as int).push(all[i as int]) =~= all.take(i + 1));
            }
            if e.seq > since_seq {
                out.push(copy_entry(e));
            }
            i = i + 1;
        }
        assert(all.take(all.len() as int) =~= all);
        out
    }

    /// How many entries are kept.
    pub fn len(&self) -> (r: usize)
        ensures
            r == self.spec_entries().len(),
    {
        self.entries.len()
    }

    /// Whether no entry is kept.
    pub fn is_empty(&self) -> (r: bool)
        ensures
            r == (self.spec_entries().len() == 0),
    {
        self.len() == 0
    }
}


/// The kept entries after `entry` arrives with number `seq` in a ring of
/// capacity `cap`: the oldest is dropped when the ring is full.
pub open spec fn ring_after_push(entries: Seq<LogEntry>, cap: nat, entry: LogEntry, seq: u64) -> Seq<LogEntry> {
    let kept = if entries.len() == cap && entries.len() > 0 {
        entries.drop_first()
    } else {
        entries
    };
    kept.push(LogEntry { seq, ..entry })
}

/// Numbering stays strictly increasing across pushes, and a ring with a
/// positive capacity never grows past it.
pub proof fn lemma_push_keeps_numbering(entries: Seq<LogEntry>, next: u64, cap: nat, entry: LogEntry)
    requires
        seqs_below(entries, next),
        next < u64::MAX,
        cap > 0 ==> entries.len() <= cap,
    ensures
        seqs_below(ring_after_push(entries, cap, entry, next), (next + 1) as u64),
        cap > 0 ==> ring_after_push(entries, cap, entry, next).len() <= cap,
        ring_after_push(entries, cap, entry, next).last().seq == next,
{
    let kept = if entries.len() == cap && entries.len() > 0 {
        entries.drop_first()
    } else {
        entries
    };
    let r = ring_after_push(entries, cap, entry, next);
    assert forall|i: int, j: int| 0 <= i < j < r.len() implies (#[trigger] r[i]).seq < (#[trigger] r[j]).seq by {
        if j < kept.len() {
            if kept == entries.drop_first() {
                assert(r[i] == entries[i + 1] && r[j] == entries[j + 1]);
            } else {
                assert(r[i] == entries[i] && r[j] == entries[j]);
            }
        } else {
            if kept == entries.drop_first() && kept.len() > 0 {
                assert(r[i] == entries[i + 1]);
            } else if kept.len() > 0 {
                assert(r[i] == entries[i]);
            }
        }
    }
    assert forall|i: int| 0 <= i < r.len() implies (#[trigger] r[i]).seq < next + 1 by {
        if i < kept.len() {
            if kept == entries.drop_first() {
                assert(r[i] == entries[i + 1]);
            } else {
                assert(r[i] == entries[i]);
            }
        }
    }
}


/// The text recorded for a field rendered with `Debug`: a quoted rendering
/// loses its surrounding quotes.
pub open spec fn debug_field_text(rendered: Seq<char>) -> Seq<char> {
    if rendered.len() >= 2 && rendered[0] == '"' && rendered.last() == '"' {
        rendered.subrange(1, rendered.len() - 1)
    } else {
        rendered
    }
}

/// Strips the quotes of a quoted `Debug` rendering.
pub fn strip_debug_quotes(rendered: &str) -> (r: String)
    ensures
        r@ == debug_field_text(rendered@),
{
    let v = crate::chars::chars_of(rendered);
    let n = v.len();
    if n >= 2 && v[0] == '"' && v[n - 1] == '"' {
        let mut out: Vec<char> = Vec::new();
        let mut i: usize = 1;
        while i < n - 1
            invariant
                1 <= i <= n - 1,
                n == v@.len(),
                n >= 2,
                out@ == v@.subrange(1, i as int),
            decreases n - 1 - i,
        {
            out.push(v[i]);
            i = i + 1;
            assert(out@ =~= v@.subrange(1, i as int));
        }
        crate::chars::string_from_chars(&out)
    } else {
        String::from_str(rendered)
    }
}

} // verus!
