//! The header at the start of the ring's memory region, and its byte layout.
//!
//! | offset | field                  | width |
//! |-------:|------------------------|------:|
//! |      0 | `magic`                |     4 |
//! |      4 | `version`              |     4 |
//! |      8 | `write_pos`            |     4 |
//! |     12 | `read_pos`             |     4 |
//! |     16 | `capacity`             |     4 |
//! |     20 | `event_size`           |     4 |
//! |     24 | `total_events`         |     8 |
//! |     32 | `dropped_events`       |     8 |
//! |     40 | `last_write_timestamp` |     8 |
//! |     48 | `last_read_timestamp`  |     8 |
//! |     56 | `producer_pid`         |     4 |
//! |     60 | `consumer_pid`         |     4 |
//! |     64 | `shutdown_flag`        |     4 |
//! |     68 | `max_utilization`      |     4 |
//! |     72 | `avg_latency_ns`       |     8 |
//!
//! All integers are little-endian.

use vstd::prelude::*;
use vstd::arithmetic::div_mod::{lemma_fundamental_div_mod_converse, lemma_small_mod};
use crate::metrics::{counted, lemma_counted};
use crate::wire::{
    get_u32, get_u64, le32, le64, lemma_le_fields, put_u32, put_u64, read32, read64,
};

verus! {

/// The bytes `RTRG` read as a big-endian number.
pub const MAGIC_NUMBER: u32 = 0x52545247;

/// The version of the layout.
pub const VERSION: u32 = 1;

/// Bytes of the header.
pub const HEADER_SIZE: usize = 80;

/// The control block of the ring: positions, sizes, counters and flags.
#[derive(Debug, Clone, Copy, PartialEq, Eq, Structural)]
pub struct RingHeader {
    pub magic: u32,
    pub version: u32,
    /// The slot the producer fills next; below `capacity`.
    pub write_pos: u32,
    /// The slot the consumer reads next; below `capacity`.
    pub read_pos: u32,
    /// Number of slots.
    pub capacity: u32,
    /// Bytes of one slot.
    pub event_size: u32,
    /// Records written.
    pub total_events: u64,
    /// Records refused because the ring was full.
    pub dropped_events: u64,
    pub last_write_timestamp: u64,
    pub last_read_timestamp: u64,
    pub producer_pid: u32,
    pub consumer_pid: u32,
    /// Nonzero once shutdown was signalled.
    pub shutdown_flag: u32,
    /// The highest fill level seen at a write, in percent.
    pub max_utilization: u32,
    /// Smoothed time from an event's timestamp to its read.
    pub avg_latency_ns: u64,
}

impl RingHeader {
    /// A fresh header: valid magic and version, both positions at slot 0, all
    /// counters, process ids and flags zero.
    pub open spec fn spec_new(capacity: u32, event_size: u32) -> RingHeader {
        RingHeader {
            magic: MAGIC_NUMBER,
            version: VERSION,
            write_pos: 0,
            read_pos: 0,
            capacity,
            event_size,
            total_events: 0,
            dropped_events: 0,
            last_write_timestamp: 0,
            last_read_timestamp: 0,
            producer_pid: 0,
            consumer_pid: 0,
            shutdown_flag: 0,
            max_utilization: 0,
            avg_latency_ns: 0,
        }
    }

    /// A fresh header: valid magic and version, both positions at slot 0, all
    /// counters, process ids and flags zero.
    #[verifier::when_used_as_spec(spec_new)]
    pub fn new(capacity: u32, event_size: u32) -> (header: RingHeader)
        ensures
            header == RingHeader::spec_new(capacity, event_size),
            header.spec_is_valid(),
    {
        RingHeader {
            magic: MAGIC_NUMBER,
            version: VERSION,
            write_pos: 0,
            read_pos: 0,
            capacity,
            event_size,
            total_events: 0,
            dropped_events: 0,
            last_write_timestamp: 0,
            last_read_timestamp: 0,
            producer_pid: 0,
            consumer_pid: 0,
            shutdown_flag: 0,
            max_utilization: 0,
            avg_latency_ns: 0,
        }
    }

    /// Whether magic and version are those of this layout.
    pub open spec fn spec_is_valid(self) -> bool {
        self.magic == MAGIC_NUMBER && self.version == VERSION
    }

    /// Whether magic and version are those of this layout.
    pub fn is_valid(&self) -> (valid: bool)
        ensures
            valid == self.spec_is_valid(),
    {
        self.magic == MAGIC_NUMBER && self.version == VERSION
    }

    /// The 80 bytes of the header.
    pub open spec fn bytes(self) -> Seq<u8> {
        le32(self.magic) + le32(self.version) + le32(self.write_pos) + le32(self.read_pos) + le32(
            self.capacity,
        ) + le32(self.event_size) + le64(self.total_events) + le64(self.dropped_events) + le64(
            self.last_write_timestamp,
        ) + le64(self.last_read_timestamp) + le32(self.producer_pid) + le32(self.consumer_pid)
            + le32(self.shutdown_flag) + le32(self.max_utilization) + le64(self.avg_latency_ns)
    }

    /// The header that the first 80 bytes of `b` hold.
    pub open spec fn of_bytes(b: Seq<u8>) -> RingHeader {
        RingHeader {
            magic: read32(b, 0),
            version: read32(b, 4),
            write_pos: read32(b, 8),
            read_pos: read32(b, 12),
            capacity: read32(b, 16),
            event_size: read32(b, 20),
            total_events: read64(b, 24),
            dropped_events: read64(b, 32),
            last_write_timestamp: read64(b, 40),
            last_read_timestamp: read64(b, 48),
            producer_pid: read32(b, 56),
            consumer_pid: read32(b, 60),
            shutdown_flag: read32(b, 64),
            max_utilization: read32(b, 68),
            avg_latency_ns: read64(b, 72),
        }
    }

    /// A header that is laid out in bytes and read back, with any bytes after
    /// it, is the same header; its layout has 80 bytes. So whoever maps the
    /// bytes of a valid header sees a valid header.
    pub proof fn lemma_bytes_round_trip(self, rest: Seq<u8>)
        ensures
            self.bytes().len() == HEADER_SIZE,
            RingHeader::of_bytes(self.bytes() + rest) == self,
            RingHeader::of_bytes(self.bytes() + rest).spec_is_valid() == self.spec_is_valid(),
    {
        lemma_le_fields();
        let b = self.bytes() + rest;
        assert(b.subrange(0, 4) =~= le32(self.magic));
        assert(b.subrange(4, 8) =~= le32(self.version));
        assert(b.subrange(8, 12) =~= le32(self.write_pos));
        assert(b.subrange(12, 16) =~= le32(self.read_pos));
        assert(b.subrange(16, 20) =~= le32(self.capacity));
        assert(b.subrange(20, 24) =~= le32(self.event_size));
        assert(b.subrange(24, 32) =~= le64(self.total_events));
        assert(b.subrange(32, 40) =~= le64(self.dropped_events));
        assert(b.subrange(40, 48) =~= le64(self.last_write_timestamp));
        assert(b.subrange(48, 56) =~= le64(self.last_read_timestamp));
        assert(b.subrange(56, 60) =~= le32(self.producer_pid));
        assert(b.subrange(60, 64) =~= le32(self.consumer_pid));
        assert(b.subrange(64, 68) =~= le32(self.shutdown_flag));
        assert(b.subrange(68, 72) =~= le32(self.max_utilization));
        assert(b.subrange(72, 80) =~= le64(self.avg_latency_ns));
    }

    /// Lays the header out in its 80 bytes.
    pub fn to_bytes(&self) -> (bytes: Vec<u8>)
        ensures
            bytes@ == self.bytes(),
            bytes@.len() == HEADER_SIZE,
    {
        let mut out: Vec<u8> = Vec::new();
        put_u32(&mut out, self.magic);
        put_u32(&mut out, self.version);
        put_u32(&mut out, self.write_pos);
        put_u32(&mut out, self.read_pos);
        put_u32(&mut out, self.capacity);
        put_u32(&mut out, self.event_size);
        put_u64(&mut out, self.total_events);
        put_u64(&mut out, self.dropped_events);
        put_u64(&mut out, self.last_write_timestamp);
        put_u64(&mut out, self.last_read_timestamp);
        put_u32(&mut out, self.producer_pid);
        put_u32(&mut out, self.consumer_pid);
        put_u32(&mut out, self.shutdown_flag);
        put_u32(&mut out, self.max_utilization);
        put_u64(&mut out, self.avg_latency_ns);
        proof {
            lemma_le_fields();
            assert(out@ =~= self.bytes());
        }
        out
    }

    /// Reads the header at the start of `bytes`. `None` when there are fewer
    /// than 80 bytes.
    pub fn from_bytes(bytes: &[u8]) -> (header: Option<RingHeader>)
        ensures
            header is Some <==> bytes@.len() >= HEADER_SIZE,
            header matches Some(h) ==> h == RingHeader::of_bytes(bytes@),
    {
        if bytes.len() < HEADER_SIZE {
            return None;
        }
        Some(
            RingHeader {
                magic: get_u32(bytes, 0),
                version: get_u32(bytes, 4),
                write_pos: get_u32(bytes, 8),
                read_pos: get_u32(bytes, 12),
                capacity: get_u32(bytes, 16),
                event_size: get_u32(bytes, 20),
                total_events: get_u64(bytes, 24),
                dropped_events: get_u64(bytes, 32),
                last_write_timestamp: get_u64(bytes, 40),
                last_read_timestamp: get_u64(bytes, 48),
                producer_pid: get_u32(bytes, 56),
                consumer_pid: get_u32(bytes, 60),
                shutdown_flag: get_u32(bytes, 64),
                max_utilization: get_u32(bytes, 68),
                avg_latency_ns: get_u64(bytes, 72),
            },
        )
    }
}

impl RingHeader {
    /// Valid magic and version, at least one slot, and both positions below
    /// the capacity.
    pub open spec fn well_formed(self) -> bool {
        &&& self.spec_is_valid()
        &&& self.capacity >= 1
        &&& self.write_pos < self.capacity
        &&& self.read_pos < self.capacity
    }

    /// The position after `pos` in a ring of `capacity` slots.
    pub open spec fn spec_next(pos: u32, capacity: u32) -> u32 {
        ((pos + 1) % (capacity as int)) as u32
    }

    /// Number of records written and not yet read.
    pub open spec fn used(self) -> nat {
        if self.write_pos >= self.read_pos {
            (self.write_pos - self.read_pos) as nat
        } else {
            (self.capacity - self.read_pos + self.write_pos) as nat
        }
    }

    /// No record can be written: the position after `write_pos` is `read_pos`.
    pub open spec fn is_full(self) -> bool {
        RingHeader::spec_next(self.write_pos, self.capacity) == self.read_pos
    }

    /// No record can be read.
    pub open spec fn is_empty(self) -> bool {
        self.read_pos == self.write_pos
    }

    /// A counter after one more count; it wraps to 0 after `u64::MAX`.
    pub open spec fn bump(counter: u64) -> u64 {
        if counter == u64::MAX {
            0
        } else {
            (counter + 1) as u64
        }
    }

    /// Fill level in percent, rounded down.
    pub open spec fn fill_percent(used: nat, capacity: u32) -> u32 {
        (used * 100 / (capacity as nat)) as u32
    }

    /// The smoothed latency after a sample: the sample itself while no
    /// latency was recorded, else the mean of both, rounded down.
    pub open spec fn smoothed(avg: u64, latency: u64) -> u64 {
        if avg == 0 {
            latency
        } else {
            ((avg + latency) / 2) as u64
        }
    }

    /// Time from an event's timestamp to `now`; zero if the timestamp is later.
    pub open spec fn latency(now: u64, event_timestamp: u64) -> u64 {
        if now >= event_timestamp {
            (now - event_timestamp) as u64
        } else {
            0
        }
    }

    /// The header after the producer tried to write at time `now`. On a full
    /// ring only `dropped_events` counts up. Otherwise `write_pos` advances,
    /// `total_events` counts up, `last_write_timestamp` is `now`, and
    /// `max_utilization` rises to the new fill level if that is higher.
    pub open spec fn after_push(self, now: u64) -> RingHeader {
        if self.is_full() {
            RingHeader { dropped_events: RingHeader::bump(self.dropped_events), ..self }
        } else {
            let level = RingHeader::fill_percent(self.used() + 1, self.capacity);
            RingHeader {
                write_pos: RingHeader::spec_next(self.write_pos, self.capacity),
                total_events: RingHeader::bump(self.total_events),
                last_write_timestamp: now,
                max_utilization: if level > self.max_utilization {
                    level
                } else {
                    self.max_utilization
                },
                ..self
            }
        }
    }

    /// The header after the consumer read, at time `now`, a record with the
    /// given timestamp. An empty ring leaves it as it is.
    pub open spec fn after_pop(self, now: u64, event_timestamp: u64) -> RingHeader {
        if self.is_empty() {
            self
        } else {
            RingHeader {
                read_pos: RingHeader::spec_next(self.read_pos, self.capacity),
                last_read_timestamp: now,
                avg_latency_ns: RingHeader::smoothed(
                    self.avg_latency_ns,
                    RingHeader::latency(now, event_timestamp),
                ),
                ..self
            }
        }
    }

    /// The position after `pos` is `pos + 1`, or 0 at the last slot.
    pub proof fn lemma_next(pos: u32, capacity: u32)
        requires
            pos < capacity,
        ensures
            RingHeader::spec_next(pos, capacity) == if pos + 1 == capacity {
                0
            } else {
                pos + 1
            },
            RingHeader::spec_next(pos, capacity) < capacity,
    {
        if pos + 1 == capacity {
            lemma_fundamental_div_mod_converse(pos + 1, capacity as int, 1, 0);
        } else {
            lemma_small_mod((pos + 1) as nat, capacity as nat);
        }
    }

    /// The number of unread records is `(write_pos - read_pos) mod capacity`,
    /// and at most `capacity - 1`.
    pub proof fn lemma_used(self)
        requires
            self.well_formed(),
        ensures
            self.used() == (self.write_pos - self.read_pos) % (self.capacity as int),
            self.used() <= self.capacity - 1,
            self.is_full() <==> self.used() == self.capacity - 1,
            self.is_empty() <==> self.used() == 0,
    {
        RingHeader::lemma_next(self.write_pos, self.capacity);
        if self.write_pos >= self.read_pos {
            lemma_small_mod((self.write_pos - self.read_pos) as nat, self.capacity as nat);
        } else {
            lemma_fundamental_div_mod_converse(
                self.write_pos - self.read_pos,
                self.capacity as int,
                -1,
                self.capacity - self.read_pos + self.write_pos,
            );
        }
    }

    /// Pushing and popping keep a header well formed, move the number of
    /// unread records by one where they succeed, and leave it alone where
    /// they do not.
    pub proof fn lemma_steps(self, now: u64, event_timestamp: u64)
        requires
            self.well_formed(),
        ensures
            self.after_push(now).well_formed(),
            self.after_pop(now, event_timestamp).well_formed(),
            self.after_push(now).used() == if self.is_full() {
                self.used()
            } else {
                self.used() + 1
            },
            self.after_pop(now, event_timestamp).used() == if self.is_empty() {
                self.used()
            } else {
                (self.used() - 1) as nat
            },
            self.after_push(now).capacity == self.capacity,
            self.after_pop(now, event_timestamp).capacity == self.capacity,
    {
        RingHeader::lemma_next(self.write_pos, self.capacity);
        RingHeader::lemma_next(self.read_pos, self.capacity);
    }

    /// The position after `pos` in a ring of `capacity` slots.
    pub fn next_pos(pos: u32, capacity: u32) -> (next: u32)
        requires
            pos < capacity,
        ensures
            next == RingHeader::spec_next(pos, capacity),
            next < capacity,
    {
        proof {
            RingHeader::lemma_next(pos, capacity);
        }
        (pos + 1) % capacity
    }

    /// Number of records written and not yet read.
    pub fn unread(&self) -> (n: u32)
        requires
            self.well_formed(),
        ensures
            n == self.used(),
            n < self.capacity,
    {
        if self.write_pos >= self.read_pos {
            self.write_pos - self.read_pos
        } else {
            self.capacity - self.read_pos + self.write_pos
        }
    }

    /// What the producer does to the header when it writes at time `now`:
    /// the new header, and the slot to fill, if the ring is not full.
    pub fn plan_push(&self, now: u64) -> (plan: (RingHeader, Option<u32>))
        requires
            self.well_formed(),
        ensures
            plan.0 == self.after_push(now),
            plan.0.well_formed(),
            plan.1 == if self.is_full() {
                None
            } else {
                Some(self.write_pos)
            },
    {
        proof {
            self.lemma_steps(now, 0);
            self.lemma_used();
        }
        let next_write = RingHeader::next_pos(self.write_pos, self.capacity);
        if next_write == self.read_pos {
            let mut next = *self;
            next.dropped_events = self.dropped_events.wrapping_add(1);
            return (next, None);
        }
        let filled: u64 = self.unread() as u64 + 1;
        let level: u32 = (filled * 100 / (self.capacity as u64)) as u32;
        let mut next = *self;
        next.write_pos = next_write;
        next.total_events = self.total_events.wrapping_add(1);
        next.last_write_timestamp = now;
        if level > self.max_utilization {
            next.max_utilization = level;
        }
        (next, Some(self.write_pos))
    }

    /// The slot the consumer reads next, if there is an unread record.
    pub fn peek(&self) -> (slot: Option<u32>)
        ensures
            slot == if self.is_empty() {
                None
            } else {
                Some(self.read_pos)
            },
    {
        if self.read_pos == self.write_pos {
            None
        } else {
            Some(self.read_pos)
        }
    }

    /// What the consumer does to the header when it has read, at time `now`,
    /// a record with the given timestamp.
    pub fn plan_pop(&self, now: u64, event_timestamp: u64) -> (next: RingHeader)
        requires
            self.well_formed(),
        ensures
            next == self.after_pop(now, event_timestamp),
            next.well_formed(),
    {
        proof {
            self.lemma_steps(now, event_timestamp);
        }
        if self.read_pos == self.write_pos {
            return *self;
        }
        let latency = now.saturating_sub(event_timestamp);
        let avg = if self.avg_latency_ns == 0 {
            latency
        } else {
            ((self.avg_latency_ns as u128 + latency as u128) / 2) as u64
        };
        let mut next = *self;
        next.read_pos = RingHeader::next_pos(self.read_pos, self.capacity);
        next.last_read_timestamp = now;
        next.avg_latency_ns = avg;
        next
    }
}

/// One call on a ring: a write by the producer or a read by the consumer.
pub enum RingOp {
    /// A write at time `now`.
    Push { now: u64 },
    /// A read at time `now`; `event_timestamp` is the timestamp of the record
    /// that is read, if there is one.
    Pop { now: u64, event_timestamp: u64 },
}

/// The header after one call.
pub open spec fn step(header: RingHeader, op: RingOp) -> RingHeader {
    match op {
        RingOp::Push { now } => header.after_push(now),
        RingOp::Pop { now, event_timestamp } => header.after_pop(now, event_timestamp),
    }
}

/// The header after a sequence of calls.
pub open spec fn run(header: RingHeader, ops: Seq<RingOp>) -> RingHeader
    decreases ops.len(),
{
    if ops.len() == 0 {
        header
    } else {
        step(run(header, ops.drop_last()), ops.last())
    }
}

/// Number of writes among the calls, refused ones included.
pub open spec fn pushed(ops: Seq<RingOp>) -> nat
    decreases ops.len(),
{
    if ops.len() == 0 {
        0
    } else {
        pushed(ops.drop_last()) + if ops.last() is Push {
            1nat
        } else {
            0nat
        }
    }
}

/// Number of reads among the calls that found a record.
pub open spec fn popped(header: RingHeader, ops: Seq<RingOp>) -> nat
    decreases ops.len(),
{
    if ops.len() == 0 {
        0
    } else {
        popped(header, ops.drop_last()) + if ops.last() is Pop && !run(
            header,
            ops.drop_last(),
        ).is_empty() {
            1nat
        } else {
            0nat
        }
    }
}

/// Number of writes among the calls that found the ring full.
pub open spec fn refused(header: RingHeader, ops: Seq<RingOp>) -> nat
    decreases ops.len(),
{
    if ops.len() == 0 {
        0
    } else {
        refused(header, ops.drop_last()) + if ops.last() is Push && run(
            header,
            ops.drop_last(),
        ).is_full() {
            1nat
        } else {
            0nat
        }
    }
}

/// The accounting of the ring, from any well-formed header and over any
/// sequence of writes and reads: the writes, less those refused, less the
/// records that the ring holds more than at the start, are the reads that
/// found a record. The ring never holds more than `capacity - 1` records.
/// The header's two counters have counted the records written and the
/// writes refused; they wrap at 2^64.
pub proof fn lemma_ring_accounting_from(start: RingHeader, ops: Seq<RingOp>)
    requires
        start.well_formed(),
    ensures
        ({
            let end = run(start, ops);
            &&& end.well_formed()
            &&& end.capacity == start.capacity
            &&& refused(start, ops) <= pushed(ops) <= ops.len()
            &&& pushed(ops) - refused(start, ops) - (end.used() - start.used()) == popped(
                start,
                ops,
            )
            &&& end.used() <= end.capacity - 1
            &&& end.used() == (end.write_pos - end.read_pos) % (end.capacity as int)
            &&& end.total_events == counted(
                start.total_events,
                pushed(ops) - refused(start, ops),
            )
            &&& end.dropped_events == counted(start.dropped_events, refused(start, ops) as int)
        }),
    decreases ops.len(),
{
    if ops.len() == 0 {
        start.lemma_used();
        lemma_counted(start.total_events, 0, 0);
        lemma_counted(start.dropped_events, 0, 0);
    } else {
        let front = ops.drop_last();
        lemma_ring_accounting_from(start, front);
        let before = run(start, front);
        match ops.last() {
            RingOp::Push { now } => {
                before.lemma_steps(now, 0);
            },
            RingOp::Pop { now, event_timestamp } => {
                before.lemma_steps(now, event_timestamp);
            },
        }
        run(start, ops).lemma_used();
        lemma_counted(start.total_events, pushed(front) - refused(start, front), 1);
        lemma_counted(start.dropped_events, refused(start, front) as int, 1);
        lemma_counted(before.total_events, 0, 0);
        lemma_counted(before.dropped_events, 0, 0);
        assert(RingHeader::bump(before.total_events) == counted(before.total_events, 1));
        assert(RingHeader::bump(before.dropped_events) == counted(before.dropped_events, 1));
    }
}

/// On a fresh ring of `capacity` slots, after fewer than 2^64 writes and
/// reads, the counters have not wrapped: the writes, less the count of
/// dropped events, less the records still in the ring, are the records
/// read; the count of events is the writes less those dropped; and the ring
/// never holds more than `capacity - 1` records.
pub proof fn lemma_ring_accounting(capacity: u32, ops: Seq<RingOp>)
    requires
        capacity >= 1,
        ops.len() < u64::MAX,
    ensures
        ({
            let fresh = RingHeader::spec_new(capacity, crate::record::EVENT_SIZE as u32);
            let end = run(fresh, ops);
            &&& end.well_formed()
            &&& end.capacity == capacity
            &&& pushed(ops) - end.dropped_events - end.used() == popped(fresh, ops)
            &&& end.total_events == pushed(ops) - end.dropped_events
            &&& end.used() <= capacity - 1
        }),
{
    let fresh = RingHeader::spec_new(capacity, crate::record::EVENT_SIZE as u32);
    lemma_ring_accounting_from(fresh, ops);
    fresh.lemma_used();
}

} // verus!
