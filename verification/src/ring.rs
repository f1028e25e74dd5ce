//! The single-producer / single-consumer ring of fixed-size records.
//!
//! A ring value is one side's image of the shared region: the header and the
//! slots as values. Each side keeps its role for life. The region's bytes are
//! the header followed by the slots, each in its layout; they are read with
//! [`ZeroCopyRing::load_header`] and [`ZeroCopyRing::load_slot`] and written
//! from [`ZeroCopyRing::header_bytes`] and [`ZeroCopyRing::slot_bytes`].

use vstd::prelude::*;
use vstd::slice::slice_subrange;
use vstd::string::StringExecFns;
use crate::clock::unix_nanos;
use crate::event::EnhancedFileEvent;
use crate::header::{RingHeader, HEADER_SIZE};
use crate::record::{
    lemma_record_bytes_round_trip, SerializedFileEvent, SerializedFileEventView, EVENT_SIZE,
    PATH_CAPACITY,
};
use crate::wire::zeros;

verus! {

/// How a ring is set up.
#[derive(Debug, Clone, PartialEq, Eq)]
pub struct ZeroCopyConfig {
    /// Bytes of the shared region.
    pub memory_size: usize,
    /// Number of slots.
    pub ring_capacity: usize,
    /// The file that backs the region.
    pub shared_path: String,
    /// Whether to wake the consumer after each write.
    pub enable_notifications: bool,
    /// How long a consumer waits for a record.
    pub consumer_timeout_ms: u64,
}

impl Default for ZeroCopyConfig {
    /// 64 MiB, 100 000 slots, `/tmp/retrigger-ipc.mmap`, notifications on, 1 s.
    fn default() -> (config: ZeroCopyConfig)
        ensures
            config.memory_size == 67108864,
            config.ring_capacity == 100000,
            config.shared_path@ == "/tmp/retrigger-ipc.mmap"@,
            config.enable_notifications,
            config.consumer_timeout_ms == 1000,
    {
        ZeroCopyConfig {
            memory_size: 67108864,
            ring_capacity: 100000,
            shared_path: String::from_str("/tmp/retrigger-ipc.mmap"),
            enable_notifications: true,
            consumer_timeout_ms: 1000,
        }
    }
}

impl ZeroCopyConfig {
    /// Bytes that a header and `ring_capacity` slots take.
    pub open spec fn region_len(self) -> nat {
        (HEADER_SIZE + self.ring_capacity * EVENT_SIZE) as nat
    }

    /// The region can hold the ring: there is at least one slot, the number
    /// of slots fits the header's field, and header and slots fit the region.
    pub open spec fn fits(self) -> bool {
        &&& 1 <= self.ring_capacity <= u32::MAX
        &&& self.region_len() <= self.memory_size
    }

    /// Whether the region can hold the ring.
    pub fn check_fits(&self) -> (ok: bool)
        ensures
            ok == self.fits(),
    {
        if self.ring_capacity < 1 || self.ring_capacity > u32::MAX as usize {
            return false;
        }
        let slots: u128 = self.ring_capacity as u128 * EVENT_SIZE as u128;
        HEADER_SIZE as u128 + slots <= self.memory_size as u128
    }

    /// A copy of the configuration.
    pub fn duplicate(&self) -> (copy: ZeroCopyConfig)
        ensures
            copy == *self,
    {
        ZeroCopyConfig {
            memory_size: self.memory_size,
            ring_capacity: self.ring_capacity,
            shared_path: self.shared_path.clone(),
            enable_notifications: self.enable_notifications,
            consumer_timeout_ms: self.consumer_timeout_ms,
        }
    }
}

/// Why a ring could not be set up.
#[derive(Debug, Clone, Copy, PartialEq, Eq, Structural)]
pub enum RingError {
    /// The region is missing or cannot hold the header and the slots.
    MapFailed,
    /// The region does not start with a valid header of this ring.
    HeaderInvalid,
}

/// A snapshot of the ring's counters.
#[derive(Debug, Clone, Copy, PartialEq, Eq, Structural)]
pub struct RingStats {
    pub capacity: usize,
    /// Records written and not yet read.
    pub used: usize,
    pub total_events: u64,
    pub dropped_events: u64,
    /// The smoothed latency in microseconds, rounded down.
    pub avg_latency_us: u64,
    /// The highest fill level seen at a write, in percent.
    pub max_utilization: u32,
    pub producer_pid: u32,
    pub consumer_pid: u32,
}

impl RingStats {
    /// The counters that a header shows.
    pub open spec fn of_header(header: RingHeader) -> RingStats {
        RingStats {
            capacity: header.capacity as usize,
            used: header.used() as usize,
            total_events: header.total_events,
            dropped_events: header.dropped_events,
            avg_latency_us: header.avg_latency_ns / 1000,
            max_utilization: header.max_utilization,
            producer_pid: header.producer_pid,
            consumer_pid: header.consumer_pid,
        }
    }
}

/// What a consumer that found no backing file does next.
#[derive(Debug, Clone, Copy, PartialEq, Eq, Structural)]
pub enum OpenStep {
    /// Sleep for the given number of milliseconds, then try again.
    Retry { sleep_ms: u64 },
    /// Give up: the ring cannot be mapped.
    GiveUp,
}

/// What a consumer that waits for records does next.
#[derive(Debug, Clone, Copy, PartialEq, Eq, Structural)]
pub enum WaitStep {
    /// A record can be read.
    Ready,
    /// Wait on the wake-notifier for at most the given number of milliseconds.
    WaitOn { fd: i32, timeout_ms: u64 },
    /// Sleep for the given number of milliseconds, then look again.
    Sleep { sleep_ms: u64 },
    /// The time is up, or this side is the producer.
    TimedOut,
}

/// Failed attempts to open the backing file after which a consumer gives up.
pub const OPEN_ATTEMPTS: u32 = 100;

/// Milliseconds between two attempts to open the backing file.
pub const OPEN_RETRY_MS: u64 = 10;

/// Milliseconds between two looks at the ring of a consumer without a
/// wake-notifier.
pub const POLL_INTERVAL_MS: u64 = 1;

/// The slot that holds the `i`-th unread record of a ring of `capacity`
/// slots whose next unread record is in slot `read_pos`.
pub open spec fn slot_of(read_pos: int, i: int, capacity: int) -> int {
    if read_pos + i < capacity {
        read_pos + i
    } else {
        read_pos + i - capacity
    }
}

/// The unread records, oldest first.
pub open spec fn unread_records(
    slots: Seq<SerializedFileEvent>,
    header: RingHeader,
) -> Seq<SerializedFileEventView> {
    Seq::new(
        header.used(),
        |i: int| slots[slot_of(header.read_pos as int, i, header.capacity as int)]@,
    )
}

/// One side of the ring.
pub struct ZeroCopyRing {
    header: RingHeader,
    slots: Vec<SerializedFileEvent>,
    config: ZeroCopyConfig,
    is_producer: bool,
    notifications_fd: Option<i32>,
}

impl ZeroCopyRing {
    /// The header as this side sees it.
    pub closed spec fn header(&self) -> RingHeader {
        self.header
    }

    /// The records written and not yet read, oldest first.
    pub closed spec fn queue(&self) -> Seq<SerializedFileEventView> {
        unread_records(self.slots@, self.header)
    }

    /// The record in each slot.
    pub closed spec fn slots(&self) -> Seq<SerializedFileEventView> {
        Seq::new(self.slots@.len(), |i: int| self.slots@[i]@)
    }

    /// The configuration the ring was set up with.
    pub closed spec fn config(&self) -> ZeroCopyConfig {
        self.config
    }

    /// Whether this side writes.
    pub closed spec fn producer(&self) -> bool {
        self.is_producer
    }

    /// The wake-notifier, if there is one.
    pub closed spec fn event_fd(&self) -> Option<i32> {
        self.notifications_fd
    }

    /// A well-formed header for records of 552 bytes, one well-formed record
    /// in each of `capacity` slots.
    pub closed spec fn wf(&self) -> bool {
        &&& self.header.well_formed()
        &&& self.header.event_size == EVENT_SIZE
        &&& self.slots@.len() == self.header.capacity
        &&& forall|i: int| 0 <= i < self.slots@.len() ==> (#[trigger] self.slots@[i])@.wf()
    }

    /// What holds of every well-formed ring: the queue has as many records as
    /// the header counts unread, at most `capacity - 1`, and they lie in the
    /// slots from `read_pos` on.
    pub proof fn lemma_wf(&self)
        requires
            self.wf(),
        ensures
            self.header().well_formed(),
            self.header().event_size == EVENT_SIZE,
            self.slots().len() == self.header().capacity,
            self.queue().len() == self.header().used(),
            self.queue().len() <= self.header().capacity - 1,
            forall|i: int|
                0 <= i < self.queue().len() ==> #[trigger] self.queue()[i] == self.slots()[slot_of(
                    self.header().read_pos as int,
                    i,
                    self.header().capacity as int,
                )],
            forall|i: int| 0 <= i < self.slots().len() ==> (#[trigger] self.slots()[i]).wf(),
    {
        self.header.lemma_used();
    }

    /// A record with no path and all fields zero.
    fn blank_record() -> (record: SerializedFileEvent)
        ensures
            record@.wf(),
            record@.path_data == zeros(PATH_CAPACITY as nat),
            record@.path_len == 0,
    {
        let path_data: Vec<u8> = vec![0u8; PATH_CAPACITY];
        proof {
            assert(path_data@ =~= zeros(PATH_CAPACITY as nat));
        }
        SerializedFileEvent {
            timestamp: 0,
            event_type: 0,
            path_len: 0,
            size: 0,
            is_directory: 0,
            hash_present: 0,
            hash_value: 0,
            path_data,
        }
    }

    /// Sets up the writing side on a fresh region: a new header with the
    /// producer's process id, and empty slots. `eventfd` is the wake-notifier
    /// that was made for the ring, if any; it is kept only if the
    /// configuration asks for notifications.
    ///
    /// Fails with `MapFailed` exactly when the region cannot hold the ring.
    pub fn create_producer(config: ZeroCopyConfig, pid: u32, eventfd: Option<i32>) -> (ring: Result<
        ZeroCopyRing,
        RingError,
    >)
        ensures
            ring is Ok <==> config.fits(),
            ring matches Err(e) ==> e == RingError::MapFailed,
            ring matches Ok(r) ==> {
                &&& r.wf()
                &&& r.producer()
                &&& r.config() == config
                &&& r.header() == (RingHeader {
                    producer_pid: pid,
                    ..RingHeader::new(config.ring_capacity as u32, EVENT_SIZE as u32)
                })
                &&& r.queue() == Seq::<SerializedFileEventView>::empty()
                &&& r.event_fd() == if config.enable_notifications {
                    eventfd
                } else {
                    None
                }
            },
    {
        if !config.check_fits() {
            return Err(RingError::MapFailed);
        }
        let capacity = config.ring_capacity;
        let mut header = RingHeader::new(capacity as u32, EVENT_SIZE as u32);
        header.producer_pid = pid;
        let mut slots: Vec<SerializedFileEvent> = Vec::new();
        let mut i: usize = 0;
        while i < capacity
            invariant
                i <= capacity,
                slots@.len() == i,
                forall|k: int| 0 <= k < slots@.len() ==> (#[trigger] slots@[k])@.wf(),
            decreases capacity - i,
        {
            slots.push(ZeroCopyRing::blank_record());
            i = i + 1;
        }
        let notifications_fd = if config.enable_notifications {
            eventfd
        } else {
            None
        };
        let ring = ZeroCopyRing { header, slots, config, is_producer: true, notifications_fd };
        proof {
            assert(ring.queue() =~= Seq::<SerializedFileEventView>::empty());
        }
        Ok(ring)
    }

    /// What a region of bytes must hold for a consumer with this
    /// configuration to attach: a valid header for records of 552 bytes whose
    /// positions are below its capacity, followed by all its slots.
    pub open spec fn attachable(region: Seq<u8>) -> bool {
        let h = RingHeader::of_bytes(region);
        &&& region.len() >= HEADER_SIZE
        &&& h.well_formed()
        &&& h.event_size == EVENT_SIZE
        &&& region.len() >= HEADER_SIZE + h.capacity * EVENT_SIZE
    }

    /// The record in slot `i` of a region.
    pub open spec fn region_slot(region: Seq<u8>, i: int) -> SerializedFileEventView {
        SerializedFileEventView::of_bytes(
            region.subrange(HEADER_SIZE + i * EVENT_SIZE, HEADER_SIZE + (i + 1) * EVENT_SIZE),
        )
    }

    /// Attaches the reading side to a region that a producer set up. The
    /// header is checked and the consumer's process id entered; the slots are
    /// read as they are.
    ///
    /// Fails with `MapFailed` when the region is shorter than a header, with
    /// `HeaderInvalid` when magic or version are wrong, and with
    /// `HeaderInvalid` too when the header does not describe a ring of
    /// 552-byte records that lies within the region.
    pub fn create_consumer(
        config: ZeroCopyConfig,
        region: &[u8],
        pid: u32,
        eventfd: Option<i32>,
    ) -> (ring: Result<ZeroCopyRing, RingError>)
        ensures
            ring is Ok <==> ZeroCopyRing::attachable(region@),
            ring matches Err(e) ==> e == if region@.len() < HEADER_SIZE {
                RingError::MapFailed
            } else {
                RingError::HeaderInvalid
            },
            region@.len() >= HEADER_SIZE && !RingHeader::of_bytes(region@).spec_is_valid()
                ==> ring == Err::<ZeroCopyRing, RingError>(RingError::HeaderInvalid),
            ring matches Ok(r) ==> {
                &&& r.wf()
                &&& !r.producer()
                &&& r.config() == config
                &&& r.header() == (RingHeader { consumer_pid: pid, ..RingHeader::of_bytes(region@) })
                &&& forall|i: int|
                    0 <= i < r.slots().len() ==> #[trigger] r.slots()[i]
                        == ZeroCopyRing::region_slot(region@, i)
                &&& r.event_fd() == if config.enable_notifications {
                    eventfd
                } else {
                    None
                }
            },
    {
        let mut header = match RingHeader::from_bytes(region) {
            Some(h) => h,
            None => {
                return Err(RingError::MapFailed);
            },
        };
        if !header.is_valid() {
            return Err(RingError::HeaderInvalid);
        }
        if header.capacity < 1 || header.write_pos >= header.capacity || header.read_pos
            >= header.capacity || header.event_size != EVENT_SIZE as u32 {
            return Err(RingError::HeaderInvalid);
        }
        let capacity = header.capacity as usize;
        let needed: u128 = HEADER_SIZE as u128 + capacity as u128 * EVENT_SIZE as u128;
        if needed > region.len() as u128 {
            return Err(RingError::HeaderInvalid);
        }
        header.consumer_pid = pid;
        let mut slots: Vec<SerializedFileEvent> = Vec::new();
        let mut i: usize = 0;
        while i < capacity
            invariant
                i <= capacity,
                slots@.len() == i,
                HEADER_SIZE + capacity * EVENT_SIZE <= region@.len() <= usize::MAX,
                forall|k: int| 0 <= k < slots@.len() ==> (#[trigger] slots@[k])@.wf(),
                forall|k: int|
                    0 <= k < slots@.len() ==> (#[trigger] slots@[k])@
                        == ZeroCopyRing::region_slot(region@, k),
            decreases capacity - i,
        {
            assert((i + 1) * 552 <= capacity * 552 && i * 552 + 552 == (i + 1) * 552)
                by (nonlinear_arith)
                requires
                    i + 1 <= capacity,
            ;
            let start = HEADER_SIZE + i * EVENT_SIZE;
            let bytes = slice_subrange(region, start, start + EVENT_SIZE);
            match SerializedFileEvent::decode(bytes) {
                Some(record) => {
                    slots.push(record);
                },
                None => {
                    return Err(RingError::HeaderInvalid);
                },
            }
            i = i + 1;
        }
        let notifications_fd = if config.enable_notifications {
            eventfd
        } else {
            None
        };
        Ok(ZeroCopyRing { header, slots, config, is_producer: false, notifications_fd })
    }

    /// What a consumer does when the backing file could not be opened and
    /// `failed_before` attempts failed before this one: it sleeps 10 ms and
    /// tries again, up to 100 times, then gives up.
    pub fn open_step(failed_before: u32) -> (step: OpenStep)
        ensures
            step == if failed_before < OPEN_ATTEMPTS {
                OpenStep::Retry { sleep_ms: OPEN_RETRY_MS }
            } else {
                OpenStep::GiveUp
            },
    {
        if failed_before < OPEN_ATTEMPTS {
            OpenStep::Retry { sleep_ms: OPEN_RETRY_MS }
        } else {
            OpenStep::GiveUp
        }
    }

    /// Writes one event at time `now`; `true` if it was written.
    ///
    /// A consumer writes nothing and returns `false`. A producer whose ring
    /// is full counts a dropped event and returns `false`. Otherwise the
    /// event's record goes into the slot at `write_pos`, joins the queue as
    /// its newest record, and the header moves on as
    /// [`RingHeader::after_push`] says. The caller signals the wake-notifier,
    /// if there is one, after a successful write.
    pub fn push_at(&mut self, event: &EnhancedFileEvent, now: u64) -> (pushed: bool)
        requires
            old(self).wf(),
        ensures
            final(self).wf(),
            final(self).config() == old(self).config(),
            final(self).producer() == old(self).producer(),
            final(self).event_fd() == old(self).event_fd(),
            pushed <==> old(self).producer() && !old(self).header().is_full(),
            !old(self).producer() ==> final(self).header() == old(self).header(),
            old(self).producer() ==> final(self).header() == old(self).header().after_push(now),
            final(self).queue() == if pushed {
                old(self).queue().push(SerializedFileEventView::of_event(event@))
            } else {
                old(self).queue()
            },
            pushed ==> final(self).slots() == old(self).slots().update(
                old(self).header().write_pos as int,
                SerializedFileEventView::of_event(event@),
            ),
            !pushed ==> final(self).slots() == old(self).slots(),
    {
        if !self.is_producer {
            return false;
        }
        proof {
            self.header.lemma_used();
            self.header.lemma_steps(now, 0);
        }
        let (next, slot) = self.header.plan_push(now);
        match slot {
            None => {
                self.header = next;
                proof {
                    assert(self.queue() =~= old(self).queue());
                }
                false
            },
            Some(index) => {
                let record = SerializedFileEvent::from(event);
                self.slots[index as usize] = record;
                self.header = next;
                proof {
                    RingHeader::lemma_next(old(self).header.write_pos, old(self).header.capacity);
                    assert(self.queue() =~= old(self).queue().push(
                        SerializedFileEventView::of_event(event@),
                    ));
                    assert(self.slots() =~= old(self).slots().update(
                        old(self).header().write_pos as int,
                        SerializedFileEventView::of_event(event@),
                    ));
                }
                true
            },
        }
    }

    /// Writes one event, stamped with the current time; `true` if it was
    /// written. It does what [`ZeroCopyRing::push_at`] does for some reading
    /// of the clock.
    pub fn push(&mut self, event: &EnhancedFileEvent) -> (pushed: bool)
        requires
            old(self).wf(),
        ensures
            final(self).wf(),
            final(self).config() == old(self).config(),
            final(self).producer() == old(self).producer(),
            final(self).event_fd() == old(self).event_fd(),
            pushed <==> old(self).producer() && !old(self).header().is_full(),
            !old(self).producer() ==> final(self).header() == old(self).header(),
            old(self).producer() ==> exists|now: u64|
                final(self).header() == #[trigger] old(self).header().after_push(now),
            final(self).queue() == if pushed {
                old(self).queue().push(SerializedFileEventView::of_event(event@))
            } else {
                old(self).queue()
            },
            pushed ==> final(self).slots() == old(self).slots().update(
                old(self).header().write_pos as int,
                SerializedFileEventView::of_event(event@),
            ),
            !pushed ==> final(self).slots() == old(self).slots(),
    {
        let now = unix_nanos();
        self.push_at(event, now)
    }

    /// Reads the oldest unread event at time `now`.
    ///
    /// A producer reads nothing and returns `None`, and so does a consumer
    /// whose ring is empty. Otherwise the oldest record leaves the queue, is
    /// returned as an event, and the header moves on as
    /// [`RingHeader::after_pop`] says.
    pub fn pop_at(&mut self, now: u64) -> (event: Option<EnhancedFileEvent>)
        requires
            old(self).wf(),
        ensures
            final(self).wf(),
            final(self).config() == old(self).config(),
            final(self).producer() == old(self).producer(),
            final(self).event_fd() == old(self).event_fd(),
            final(self).slots() == old(self).slots(),
            event is Some <==> !old(self).producer() && !old(self).header().is_empty(),
            event is None ==> final(self).header() == old(self).header() && final(self).queue()
                == old(self).queue(),
            event matches Some(e) ==> {
                &&& old(self).queue().len() > 0
                &&& e@ == old(self).queue()[0].to_event()
                &&& final(self).queue() == old(self).queue().drop_first()
                &&& final(self).header() == old(self).header().after_pop(
                    now,
                    old(self).queue()[0].timestamp,
                )
            },
    {
        if self.is_producer {
            return None;
        }
        proof {
            self.header.lemma_used();
        }
        match self.header.peek() {
            None => None,
            Some(index) => {
                let event = EnhancedFileEvent::from(&self.slots[index as usize]);
                let timestamp = self.slots[index as usize].timestamp;
                proof {
                    self.header.lemma_steps(now, timestamp);
                    RingHeader::lemma_next(self.header.read_pos, self.header.capacity);
                }
                self.header = self.header.plan_pop(now, timestamp);
                proof {
                    assert(self.queue() =~= old(self).queue().drop_first());
                }
                Some(event)
            },
        }
    }

    /// Reads the oldest unread event, at the current time. It does what
    /// [`ZeroCopyRing::pop_at`] does for some reading of the clock.
    pub fn pop(&mut self) -> (event: Option<EnhancedFileEvent>)
        requires
            old(self).wf(),
        ensures
            final(self).wf(),
            final(self).config() == old(self).config(),
            final(self).producer() == old(self).producer(),
            final(self).event_fd() == old(self).event_fd(),
            final(self).slots() == old(self).slots(),
            event is Some <==> !old(self).producer() && !old(self).header().is_empty(),
            event is None ==> final(self).header() == old(self).header() && final(self).queue()
                == old(self).queue(),
            event matches Some(e) ==> {
                &&& old(self).queue().len() > 0
                &&& e@ == old(self).queue()[0].to_event()
                &&& final(self).queue() == old(self).queue().drop_first()
                &&& exists|now: u64|
                    final(self).header() == #[trigger] old(self).header().after_pop(
                        now,
                        old(self).queue()[0].timestamp,
                    )
            },
    {
        let now = unix_nanos();
        self.pop_at(now)
    }

    /// What a consumer that wants records does after `elapsed_ms` of a wait
    /// of at most `timeout_ms`.
    ///
    /// The producer never waits. A consumer with an unread record is ready.
    /// Otherwise, while time is left, one with a wake-notifier waits on it
    /// for the rest of the time, and one without sleeps 1 ms before it looks
    /// again (after [`ZeroCopyRing::load_header`]).
    pub fn wait_for_events(&self, timeout_ms: u64, elapsed_ms: u64) -> (step: WaitStep)
        ensures
            step == if self.producer() {
                WaitStep::TimedOut
            } else if !self.header().is_empty() {
                WaitStep::Ready
            } else if elapsed_ms >= timeout_ms {
                WaitStep::TimedOut
            } else {
                match self.event_fd() {
                    Some(fd) => WaitStep::WaitOn { fd, timeout_ms: (timeout_ms - elapsed_ms) as u64 },
                    None => WaitStep::Sleep { sleep_ms: POLL_INTERVAL_MS },
                }
            },
    {
        if self.is_producer {
            return WaitStep::TimedOut;
        }
        if self.header.read_pos != self.header.write_pos {
            return WaitStep::Ready;
        }
        if elapsed_ms >= timeout_ms {
            return WaitStep::TimedOut;
        }
        match self.notifications_fd {
            Some(fd) => WaitStep::WaitOn { fd, timeout_ms: timeout_ms - elapsed_ms },
            None => WaitStep::Sleep { sleep_ms: POLL_INTERVAL_MS },
        }
    }

    /// The ring's counters.
    pub fn stats(&self) -> (stats: RingStats)
        requires
            self.wf(),
        ensures
            stats == RingStats::of_header(self.header()),
            stats.used == self.queue().len(),
    {
        proof {
            self.header.lemma_used();
        }
        RingStats {
            capacity: self.header.capacity as usize,
            used: self.header.unread() as usize,
            total_events: self.header.total_events,
            dropped_events: self.header.dropped_events,
            avg_latency_us: self.header.avg_latency_ns / 1000,
            max_utilization: self.header.max_utilization,
            producer_pid: self.header.producer_pid,
            consumer_pid: self.header.consumer_pid,
        }
    }

    /// Signals shutdown: sets the flag to 1. The caller signals the
    /// wake-notifier, if there is one.
    pub fn shutdown(&mut self)
        requires
            old(self).wf(),
        ensures
            final(self).wf(),
            final(self).header() == (RingHeader { shutdown_flag: 1, ..old(self).header() }),
            final(self).queue() == old(self).queue(),
            final(self).slots() == old(self).slots(),
            final(self).config() == old(self).config(),
            final(self).producer() == old(self).producer(),
            final(self).event_fd() == old(self).event_fd(),
            final(self).spec_is_shutdown(),
    {
        self.header.shutdown_flag = 1;
        proof {
            assert(self.queue() =~= old(self).queue());
        }
    }

    /// Whether shutdown was signalled.
    pub open spec fn spec_is_shutdown(&self) -> bool {
        self.header().shutdown_flag != 0
    }

    /// Whether shutdown was signalled.
    pub fn is_shutdown(&self) -> (down: bool)
        ensures
            down == self.spec_is_shutdown(),
    {
        self.header.shutdown_flag != 0
    }

    /// The wake-notifier, if there is one.
    pub fn get_event_fd(&self) -> (fd: Option<i32>)
        ensures
            fd == self.event_fd(),
    {
        self.notifications_fd
    }

    /// The path of the file that backs the region.
    pub fn get_mmap_path(&self) -> (path: &String)
        ensures
            *path == self.config().shared_path,
    {
        &self.config.shared_path
    }

    /// Whether this side writes.
    pub fn is_producer(&self) -> (producer: bool)
        ensures
            producer == self.producer(),
    {
        self.is_producer
    }

    /// The header as this side sees it.
    pub fn header_snapshot(&self) -> (header: RingHeader)
        ensures
            header == self.header(),
    {
        self.header
    }

    /// The header's 80 bytes, to be written at the start of the region.
    pub fn header_bytes(&self) -> (bytes: Vec<u8>)
        ensures
            bytes@ == self.header().bytes(),
            bytes@.len() == HEADER_SIZE,
    {
        self.header.to_bytes()
    }

    /// The 552 bytes of slot `index`, to be written at
    /// `HEADER_SIZE + index * EVENT_SIZE` in the region. `None` for an index
    /// that is no slot.
    pub fn slot_bytes(&self, index: usize) -> (bytes: Option<Vec<u8>>)
        requires
            self.wf(),
        ensures
            bytes is Some <==> index < self.slots().len(),
            bytes matches Some(b) ==> b@ == self.slots()[index as int].bytes() && b@.len()
                == EVENT_SIZE,
    {
        if index < self.slots.len() {
            Some(self.slots[index].encode())
        } else {
            None
        }
    }

    /// Takes over the header that the region holds now, so that this side
    /// sees what the other side did. The bytes are taken only if they hold a
    /// well-formed header of this very ring: same capacity, 552-byte records.
    /// Otherwise nothing changes and the result is `HeaderInvalid`, or
    /// `MapFailed` for fewer than 80 bytes.
    pub fn load_header(&mut self, bytes: &[u8]) -> (loaded: Result<(), RingError>)
        requires
            old(self).wf(),
        ensures
            final(self).wf(),
            final(self).config() == old(self).config(),
            final(self).producer() == old(self).producer(),
            final(self).event_fd() == old(self).event_fd(),
            final(self).slots() == old(self).slots(),
            loaded is Ok <==> {
                &&& bytes@.len() >= HEADER_SIZE
                &&& RingHeader::of_bytes(bytes@).well_formed()
                &&& RingHeader::of_bytes(bytes@).capacity == old(self).header().capacity
                &&& RingHeader::of_bytes(bytes@).event_size == EVENT_SIZE
            },
            loaded is Ok ==> final(self).header() == RingHeader::of_bytes(bytes@),
            loaded matches Err(e) ==> final(self).header() == old(self).header() && e == if bytes@.len()
                < HEADER_SIZE {
                RingError::MapFailed
            } else {
                RingError::HeaderInvalid
            },
    {
        let header = match RingHeader::from_bytes(bytes) {
            Some(h) => h,
            None => {
                return Err(RingError::MapFailed);
            },
        };
        if !header.is_valid() || header.capacity != self.header.capacity || header.write_pos
            >= header.capacity || header.read_pos >= header.capacity || header.event_size
            != EVENT_SIZE as u32 {
            return Err(RingError::HeaderInvalid);
        }
        self.header = header;
        Ok(())
    }

    /// Takes over the record that slot `index` of the region holds now.
    /// `false`, and nothing changes, when `index` is no slot or the bytes are
    /// not 552.
    pub fn load_slot(&mut self, index: usize, bytes: &[u8]) -> (loaded: bool)
        requires
            old(self).wf(),
        ensures
            final(self).wf(),
            final(self).config() == old(self).config(),
            final(self).producer() == old(self).producer(),
            final(self).event_fd() == old(self).event_fd(),
            final(self).header() == old(self).header(),
            loaded <==> index < old(self).slots().len() && bytes@.len() == EVENT_SIZE,
            loaded ==> final(self).slots() == old(self).slots().update(
                index as int,
                SerializedFileEventView::of_bytes(bytes@),
            ),
            !loaded ==> final(self).slots() == old(self).slots(),
    {
        if index >= self.slots.len() {
            return false;
        }
        match SerializedFileEvent::decode(bytes) {
            None => false,
            Some(record) => {
                self.slots[index] = record;
                proof {
                    assert(self.slots() =~= old(self).slots().update(
                        index as int,
                        SerializedFileEventView::of_bytes(bytes@),
                    ));
                }
                true
            },
        }
    }

    /// The bytes of the region as this side sees it: the header followed by
    /// all slots. A consumer can attach to them.
    pub fn region_bytes(&self) -> (bytes: Vec<u8>)
        requires
            self.wf(),
        ensures
            bytes@.len() == HEADER_SIZE + self.header().capacity * EVENT_SIZE,
            RingHeader::of_bytes(bytes@) == self.header(),
            forall|i: int|
                0 <= i < self.slots().len() ==> #[trigger] ZeroCopyRing::region_slot(bytes@, i)
                    == self.slots()[i],
            ZeroCopyRing::attachable(bytes@),
    {
        let mut out = self.header.to_bytes();
        let ghost mut rest: Seq<u8> = Seq::empty();
        let mut i: usize = 0;
        proof {
            assert(out@ =~= self.header.bytes() + rest);
        }
        while i < self.slots.len()
            invariant
                i <= self.slots@.len(),
                self.wf(),
                self.header.bytes().len() == HEADER_SIZE,
                out@ == self.header.bytes() + rest,
                rest.len() == i * EVENT_SIZE,
                forall|k: int|
                    0 <= k < i ==> #[trigger] ZeroCopyRing::region_slot(out@, k) == self.slots@[k]@,
            decreases self.slots@.len() - i,
        {
            let mut slot = self.slots[i].encode();
            let ghost before = out@;
            let ghost record = self.slots@[i as int]@;
            proof {
                lemma_record_bytes_round_trip(record);
                assert((i + 1) * 552 == i * 552 + 552) by (nonlinear_arith);
            }
            out.append(&mut slot);
            proof {
                rest = rest + record.bytes();
                assert(out@ =~= self.header.bytes() + rest);
                assert forall|k: int| 0 <= k < i + 1 implies #[trigger] ZeroCopyRing::region_slot(
                    out@,
                    k,
                ) == self.slots@[k]@ by {
                    assert((k + 1) * 552 == k * 552 + 552) by (nonlinear_arith);
                    assert(k * 552 + 552 <= i * 552 + 552) by (nonlinear_arith)
                        requires
                            k <= i,
                    ;
                    if k < i {
                        assert(out@.subrange(HEADER_SIZE + k * EVENT_SIZE, HEADER_SIZE + (k + 1)
                            * EVENT_SIZE) =~= before.subrange(
                            HEADER_SIZE + k * EVENT_SIZE,
                            HEADER_SIZE + (k + 1) * EVENT_SIZE,
                        ));
                        assert(ZeroCopyRing::region_slot(before, k) == self.slots@[k]@);
                    } else {
                        assert(out@.subrange(HEADER_SIZE + k * EVENT_SIZE, HEADER_SIZE + (k + 1)
                            * EVENT_SIZE) =~= record.bytes());
                    }
                }
            }
            i = i + 1;
        }
        proof {
            self.header.lemma_bytes_round_trip(rest);
        }
        out
    }
}

} // verus!
