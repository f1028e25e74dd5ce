//! The consumer's view of the ring, and the bookkeeping of a process that
//! holds several rings.

use vstd::prelude::*;
use crate::event::EnhancedFileEvent;
use crate::header::RingHeader;
use crate::ring::{RingError, RingStats, ZeroCopyConfig, ZeroCopyRing};

verus! {

/// Events an iteration hands out at most unless told otherwise.
pub const DEFAULT_ITER_BATCH: usize = 100;

/// Microseconds between two looks at the ring of a consumer that waits.
pub const RECV_POLL_US: u64 = 100;

/// Milliseconds a consumer waits for an event unless told otherwise.
pub const RECV_TIMEOUT_MS: u64 = 1000;

/// What a consumer that waits for an event does next.
#[derive(Debug, Clone, PartialEq, Eq)]
pub enum RecvStep {
    /// An event was read.
    Event(EnhancedFileEvent),
    /// Nothing to read: sleep for the given number of microseconds, take
    /// over the header, then look again.
    Sleep { sleep_us: u64 },
    /// Nothing to read, and the producer has signalled shutdown: stop.
    Shutdown,
    /// The time is up.
    TimedOut,
}

/// The counters of a ring with the mark that the ring is attached.
#[derive(Debug, Clone, Copy, PartialEq, Eq, Structural)]
pub struct SystemStats {
    pub ring_stats: RingStats,
    pub is_connected: bool,
}

/// A consumer attached to the ring of a daemon.
pub struct ZeroCopyConsumer {
    ring: ZeroCopyRing,
}

impl ZeroCopyConsumer {
    /// The ring the consumer reads.
    pub closed spec fn ring(&self) -> ZeroCopyRing {
        self.ring
    }

    /// The ring is well formed and this side reads.
    pub open spec fn wf(&self) -> bool {
        self.ring().wf() && !self.ring().producer()
    }

    /// Attaches to the region of a daemon that uses the default
    /// configuration; see [`ZeroCopyRing::create_consumer`].
    pub fn connect(region: &[u8], pid: u32, eventfd: Option<i32>) -> (consumer: Result<
        ZeroCopyConsumer,
        RingError,
    >)
        ensures
            consumer is Ok <==> ZeroCopyRing::attachable(region@),
            consumer matches Ok(c) ==> c.wf() && c.ring().header() == (RingHeader {
                consumer_pid: pid,
                ..RingHeader::of_bytes(region@)
            }),
            consumer matches Err(e) ==> e == if region@.len() < crate::header::HEADER_SIZE {
                RingError::MapFailed
            } else {
                RingError::HeaderInvalid
            },
    {
        ZeroCopyConsumer::connect_with_config(ZeroCopyConfig::default(), region, pid, eventfd)
    }

    /// Attaches to a region; see [`ZeroCopyRing::create_consumer`].
    pub fn connect_with_config(
        config: ZeroCopyConfig,
        region: &[u8],
        pid: u32,
        eventfd: Option<i32>,
    ) -> (consumer: Result<ZeroCopyConsumer, RingError>)
        ensures
            consumer is Ok <==> ZeroCopyRing::attachable(region@),
            consumer matches Ok(c) ==> c.wf() && c.ring().config() == config && c.ring().header()
                == (RingHeader { consumer_pid: pid, ..RingHeader::of_bytes(region@) }),
            consumer matches Err(e) ==> e == if region@.len() < crate::header::HEADER_SIZE {
                RingError::MapFailed
            } else {
                RingError::HeaderInvalid
            },
    {
        match ZeroCopyRing::create_consumer(config, region, pid, eventfd) {
            Ok(ring) => Ok(ZeroCopyConsumer { ring }),
            Err(e) => Err(e),
        }
    }

    /// The ring, to take over what the producer wrote.
    pub fn ring_mut(&mut self) -> (ring: &mut ZeroCopyRing)
        ensures
            *ring == old(self).ring(),
            *final(ring) == final(self).ring(),
    {
        &mut self.ring
    }

    /// The oldest unread event, if there is one.
    pub fn try_recv(&mut self) -> (event: Option<EnhancedFileEvent>)
        requires
            old(self).wf(),
        ensures
            final(self).wf(),
            event is Some <==> old(self).ring().queue().len() > 0,
            event matches Some(e) ==> e@ == old(self).ring().queue()[0].to_event() && final(self).ring().queue() == old(self).ring().queue().drop_first(),
            event is None ==> final(self).ring().queue() == old(self).ring().queue(),
    {
        proof {
            self.ring.lemma_wf();
            self.ring.header().lemma_used();
        }
        self.ring.pop()
    }

    /// What a consumer does that has waited `elapsed_ms` of at most
    /// `timeout_ms` for an event: it reads one if there is one; else it
    /// stops if shutdown was signalled; else it sleeps 100 microseconds
    /// while time is left, and gives up when it is not.
    pub fn recv_timeout(&mut self, timeout_ms: u64, elapsed_ms: u64) -> (step: RecvStep)
        requires
            old(self).wf(),
        ensures
            final(self).wf(),
            old(self).ring().queue().len() > 0 ==> (step matches RecvStep::Event(e) && e@ == old(self).ring().queue()[0].to_event() && final(self).ring().queue() == old(self).ring().queue().drop_first()),
            old(self).ring().queue().len() == 0 ==> final(self).ring().queue() == old(self).ring().queue() && step == (if old(self).ring().spec_is_shutdown() {
                RecvStep::Shutdown
            } else if elapsed_ms < timeout_ms {
                RecvStep::Sleep { sleep_us: RECV_POLL_US }
            } else {
                RecvStep::TimedOut
            }),
    {
        let down = self.ring.is_shutdown();
        match self.try_recv() {
            Some(event) => RecvStep::Event(event),
            None => {
                if down {
                    RecvStep::Shutdown
                } else if elapsed_ms < timeout_ms {
                    RecvStep::Sleep { sleep_us: RECV_POLL_US }
                } else {
                    RecvStep::TimedOut
                }
            },
        }
    }

    /// The counters of the ring.
    pub fn stats(&self) -> (stats: RingStats)
        requires
            self.wf(),
        ensures
            stats == RingStats::of_header(self.ring().header()),
            stats.used == self.ring().queue().len(),
    {
        self.ring.stats()
    }

    /// Whether an event can be read.
    pub fn has_events(&self) -> (some: bool)
        requires
            self.wf(),
        ensures
            some == (self.ring().queue().len() > 0),
    {
        self.stats().used > 0
    }

    /// Reads up to `batch_size` events, oldest first, and stops early when
    /// the ring is empty.
    pub fn iter_batch(&mut self, batch_size: usize) -> (events: Vec<EnhancedFileEvent>)
        requires
            old(self).wf(),
        ensures
            final(self).wf(),
            events@.len() == if old(self).ring().queue().len() <= batch_size {
                old(self).ring().queue().len()
            } else {
                batch_size as nat
            },
            forall|i: int|
                0 <= i < events@.len() ==> (#[trigger] events@[i])@ == old(self).ring().queue()[i].to_event(),
            final(self).ring().queue() == old(self).ring().queue().skip(events@.len() as int),
    {
        let mut events: Vec<EnhancedFileEvent> = Vec::new();
        proof {
            assert(old(self).ring().queue().skip(0) =~= old(self).ring().queue());
        }
        while events.len() < batch_size
            invariant
                self.wf(),
                events@.len() <= batch_size,
                events@.len() <= old(self).ring().queue().len(),
                forall|i: int|
                    0 <= i < events@.len() ==> (#[trigger] events@[i])@ == old(self).ring().queue()[i].to_event(),
                self.ring().queue() == old(self).ring().queue().skip(events@.len() as int),
            ensures
                events@.len() == batch_size || self.ring().queue().len() == 0,
            decreases batch_size - events@.len(),
        {
            let ghost n = events@.len() as int;
            match self.try_recv() {
                None => {
                    break ;
                },
                Some(event) => {
                    events.push(event);
                    proof {
                        assert(old(self).ring().queue().skip(n).drop_first() =~= old(self).ring().queue().skip(n + 1));
                    }
                },
            }
        }
        events
    }

    /// Reads up to 100 events, oldest first.
    pub fn iter(&mut self) -> (events: Vec<EnhancedFileEvent>)
        requires
            old(self).wf(),
        ensures
            final(self).wf(),
            events@.len() == if old(self).ring().queue().len() <= DEFAULT_ITER_BATCH {
                old(self).ring().queue().len()
            } else {
                DEFAULT_ITER_BATCH as nat
            },
            forall|i: int|
                0 <= i < events@.len() ==> (#[trigger] events@[i])@ == old(self).ring().queue()[i].to_event(),
            final(self).ring().queue() == old(self).ring().queue().skip(events@.len() as int),
    {
        self.iter_batch(DEFAULT_ITER_BATCH)
    }
}

/// Whether a daemon can be reached: its region can be attached to.
pub fn is_daemon_available(region: &[u8]) -> (available: bool)
    ensures
        available == ZeroCopyRing::attachable(region@),
{
    ZeroCopyConsumer::connect(region, 0, None).is_ok()
}

/// The counters of the ring in a region, if it can be attached to.
pub fn get_system_stats(region: &[u8]) -> (stats: Result<SystemStats, RingError>)
    ensures
        stats is Ok <==> ZeroCopyRing::attachable(region@),
        stats matches Ok(s) ==> s.is_connected && s.ring_stats == RingStats::of_header(
            RingHeader { consumer_pid: 0, ..RingHeader::of_bytes(region@) },
        ),
        stats matches Err(e) ==> e == if region@.len() < crate::header::HEADER_SIZE {
            RingError::MapFailed
        } else {
            RingError::HeaderInvalid
        },
{
    match ZeroCopyConsumer::connect(region, 0, None) {
        Ok(consumer) => Ok(SystemStats { ring_stats: consumer.stats(), is_connected: true }),
        Err(e) => Err(e),
    }
}

/// The counters of all rings a process holds.
#[derive(Debug, Clone, PartialEq, Eq)]
pub struct IPCStats {
    pub producer_stats: Option<RingStats>,
    pub consumer_stats: Vec<RingStats>,
    pub total_consumers: usize,
}

/// The rings of a process: at most one it writes and any number it reads.
pub struct IPCManager {
    producer_ring: Option<ZeroCopyRing>,
    consumers: Vec<ZeroCopyRing>,
    config: ZeroCopyConfig,
}

impl IPCManager {
    /// The ring the process writes, if it has one.
    pub closed spec fn producer_ring(&self) -> Option<ZeroCopyRing> {
        self.producer_ring
    }

    /// The rings the process reads.
    pub closed spec fn consumers(&self) -> Seq<ZeroCopyRing> {
        self.consumers@
    }

    /// The configuration of all the rings.
    pub closed spec fn config(&self) -> ZeroCopyConfig {
        self.config
    }

    /// All rings are well formed and in their roles.
    pub open spec fn wf(&self) -> bool {
        &&& (self.producer_ring() matches Some(r) ==> r.wf() && r.producer())
        &&& forall|i: int|
            0 <= i < self.consumers().len() ==> (#[trigger] self.consumers()[i]).wf()
                && !self.consumers()[i].producer()
    }

    /// A manager without rings.
    pub fn new(config: ZeroCopyConfig) -> (manager: IPCManager)
        ensures
            manager.wf(),
            manager.producer_ring() is None,
            manager.consumers().len() == 0,
            manager.config() == config,
    {
        IPCManager { producer_ring: None, consumers: Vec::new(), config }
    }

    /// Sets up the ring the process writes, in place of an earlier one; see
    /// [`ZeroCopyRing::create_producer`].
    pub fn start_producer(&mut self, pid: u32, eventfd: Option<i32>) -> (started: Result<(), RingError>)
        requires
            old(self).wf(),
        ensures
            final(self).wf(),
            final(self).config() == old(self).config(),
            final(self).consumers() == old(self).consumers(),
            started is Ok <==> old(self).config().fits(),
            started is Ok ==> (final(self).producer_ring() matches Some(r) && r.queue().len() == 0
                && r.header() == (RingHeader {
                producer_pid: pid,
                ..RingHeader::new(
                    old(self).config().ring_capacity as u32,
                    crate::record::EVENT_SIZE as u32,
                )
            })),
            started matches Err(e) ==> e == RingError::MapFailed && final(self).producer_ring()
                == old(self).producer_ring(),
    {
        match ZeroCopyRing::create_producer(self.config.duplicate(), pid, eventfd) {
            Ok(ring) => {
                self.producer_ring = Some(ring);
                proof {
                    assert(self.consumers() == old(self).consumers());
                    assert(self.producer_ring() matches Some(r) && r.wf() && r.producer());
                    assert forall|i: int| 0 <= i < self.consumers().len() implies (
                    #[trigger] self.consumers()[i]).wf() && !self.consumers()[i].producer() by {
                        assert(self.consumers()[i] == old(self).consumers()[i]);
                    }
                }
                Ok(())
            },
            Err(e) => Err(e),
        }
    }

    /// Attaches one more ring the process reads; see
    /// [`ZeroCopyRing::create_consumer`].
    pub fn connect_consumer(&mut self, region: &[u8], pid: u32, eventfd: Option<i32>) -> (connected:
        Result<(), RingError>)
        requires
            old(self).wf(),
        ensures
            final(self).wf(),
            final(self).config() == old(self).config(),
            final(self).producer_ring() == old(self).producer_ring(),
            connected is Ok <==> ZeroCopyRing::attachable(region@),
            connected is Ok ==> final(self).consumers().len() == old(self).consumers().len() + 1
                && final(self).consumers().drop_last() == old(self).consumers(),
            connected is Err ==> final(self).consumers() == old(self).consumers(),
    {
        match ZeroCopyRing::create_consumer(self.config.duplicate(), region, pid, eventfd) {
            Ok(ring) => {
                let ghost before = self.consumers@;
                self.consumers.push(ring);
                proof {
                    assert(self.consumers@.drop_last() =~= before);
                    assert forall|i: int| 0 <= i < self.consumers().len() implies (
                    #[trigger] self.consumers()[i]).wf() && !self.consumers()[i].producer() by {
                        if i < before.len() {
                            assert(self.consumers()[i] == old(self).consumers()[i]);
                        }
                    }
                }
                Ok(())
            },
            Err(e) => Err(e),
        }
    }

    /// The counters of all rings.
    pub fn get_stats(&self) -> (stats: IPCStats)
        requires
            self.wf(),
        ensures
            stats.total_consumers == self.consumers().len(),
            stats.consumer_stats@.len() == self.consumers().len(),
            stats.producer_stats == (match self.producer_ring() {
                Some(r) => Some(RingStats::of_header(r.header())),
                None => None,
            }),
            forall|i: int|
                0 <= i < self.consumers().len() ==> #[trigger] stats.consumer_stats@[i]
                    == RingStats::of_header(self.consumers()[i].header()),
    {
        let producer_stats = match &self.producer_ring {
            Some(ring) => Some(ring.stats()),
            None => None,
        };
        let mut consumer_stats: Vec<RingStats> = Vec::new();
        let mut i: usize = 0;
        while i < self.consumers.len()
            invariant
                i <= self.consumers().len(),
                self.wf(),
                consumer_stats@.len() == i,
                forall|k: int|
                    0 <= k < i ==> #[trigger] consumer_stats@[k] == RingStats::of_header(
                        self.consumers()[k].header(),
                    ),
            decreases self.consumers().len() - i,
        {
            consumer_stats.push(self.consumers[i].stats());
            i = i + 1;
        }
        IPCStats { producer_stats, consumer_stats, total_consumers: self.consumers.len() }
    }
}

} // verus!
