//! The pipeline between the event source and the ring: events gather in a
//! batch, which is flushed when it is full or when the flush timer ticks.
//! Flushing enriches each event, writes it to the ring and counts it.
//!
//! Waiting for an event or for the timer is the caller's part; it tells the
//! pipeline what happened and gets back what to flush.

use vstd::prelude::*;
use crate::cache::{enriched, Buckets, Entries, FileEventProcessor, FileProbe};
use crate::clock::unix_nanos;
use crate::event::{EnhancedFileEvent, SystemEvent, SystemEventView};
use crate::hash::HashResult;
use crate::header::RingHeader;
use crate::metrics::{
    counted, counters_after, lemma_counted, EventCounters, MetricsCollector,
};
use crate::patterns::CompiledPatterns;
use crate::record::SerializedFileEventView;
use crate::ring::ZeroCopyRing;
use crate::watcher::event_views;

verus! {

/// Events in a batch unless told otherwise.
pub const DEFAULT_BATCH_SIZE: usize = 100;

/// Milliseconds between two ticks of the flush timer.
pub const FLUSH_TIMEOUT_MS: u64 = 10;

/// Where the pipeline stands between two flushes.
#[derive(Debug, Clone, Copy, PartialEq, Eq, Structural)]
pub enum PipelineState {
    /// No event is waiting.
    Idle,
    /// Events are waiting for the batch to fill or the timer to tick.
    Accumulating,
}

/// The batch of events that wait to be flushed.
pub struct Pipeline {
    batch: Vec<SystemEvent>,
    batch_size: usize,
}

impl Pipeline {
    /// The events that wait, oldest first.
    pub closed spec fn pending(&self) -> Seq<SystemEventView> {
        event_views(self.batch@)
    }

    /// Number of events at which the batch is flushed.
    pub closed spec fn batch_size(&self) -> usize {
        self.batch_size
    }

    /// Fewer events wait than make a batch.
    pub open spec fn wf(&self) -> bool {
        self.pending().len() < self.batch_size()
    }

    /// Where the pipeline stands.
    pub open spec fn spec_state(&self) -> PipelineState {
        if self.pending().len() == 0 {
            PipelineState::Idle
        } else {
            PipelineState::Accumulating
        }
    }

    /// A pipeline with batches of `batch_size` events, or of one event if
    /// `batch_size` is 0. No event waits.
    pub fn new(batch_size: usize) -> (pipeline: Pipeline)
        ensures
            pipeline.wf(),
            pipeline.pending().len() == 0,
            pipeline.batch_size() == if batch_size == 0 {
                1
            } else {
                batch_size
            },
    {
        Pipeline {
            batch: Vec::new(),
            batch_size: if batch_size == 0 {
                1
            } else {
                batch_size
            },
        }
    }

    /// Where the pipeline stands.
    pub fn state(&self) -> (state: PipelineState)
        ensures
            state == self.spec_state(),
    {
        if self.batch.len() == 0 {
            PipelineState::Idle
        } else {
            PipelineState::Accumulating
        }
    }

    fn take_batch(&mut self) -> (batch: Vec<SystemEvent>)
        ensures
            event_views(batch@) == old(self).pending(),
            final(self).pending().len() == 0,
            final(self).batch_size() == old(self).batch_size(),
    {
        let mut batch: Vec<SystemEvent> = Vec::new();
        std::mem::swap(&mut self.batch, &mut batch);
        batch
    }

    /// The source delivered an event. An event whose path the patterns do
    /// not watch is dropped. Any other event joins the batch; if that fills
    /// the batch, the batch is handed out to be flushed and the pipeline is
    /// idle again.
    pub fn on_event(&mut self, event: SystemEvent, patterns: &CompiledPatterns) -> (flush: Option<
        Vec<SystemEvent>,
    >)
        requires
            old(self).wf(),
        ensures
            final(self).wf(),
            final(self).batch_size() == old(self).batch_size(),
            !patterns.watches(event@.path) ==> flush is None && final(self).pending() == old(self).pending(),
            patterns.watches(event@.path) && old(self).pending().len() + 1 < old(self).batch_size() ==> flush is None && final(self).pending() == old(self).pending().push(
                event@,
            ),
            patterns.watches(event@.path) && old(self).pending().len() + 1 >= old(self).batch_size() ==> final(self).pending().len() == 0 && (flush matches Some(batch)
                && event_views(batch@) == old(self).pending().push(event@)),
    {
        if !patterns.should_watch(event.path.as_slice()) {
            return None;
        }
        let ghost before = self.batch@;
        self.batch.push(event);
        proof {
            assert(event_views(self.batch@) =~= event_views(before).push(event@));
        }
        if self.batch.len() >= self.batch_size {
            Some(self.take_batch())
        } else {
            None
        }
    }

    /// The flush timer ticked: the events that wait, if any, are handed out
    /// to be flushed.
    pub fn on_tick(&mut self) -> (flush: Option<Vec<SystemEvent>>)
        requires
            old(self).wf(),
        ensures
            final(self).wf(),
            final(self).batch_size() == old(self).batch_size(),
            final(self).pending().len() == 0,
            flush is Some <==> old(self).pending().len() > 0,
            flush matches Some(batch) ==> event_views(batch@) == old(self).pending(),
    {
        if self.batch.len() == 0 {
            None
        } else {
            Some(self.take_batch())
        }
    }

    /// The source ended or shutdown was signalled: all events that wait are
    /// handed out for a last flush.
    pub fn on_close(&mut self) -> (flush: Vec<SystemEvent>)
        requires
            old(self).wf(),
        ensures
            final(self).wf(),
            final(self).batch_size() == old(self).batch_size(),
            final(self).pending().len() == 0,
            event_views(flush@) == old(self).pending(),
    {
        self.take_batch()
    }
}

impl Default for Pipeline {
    /// A pipeline with batches of 100 events.
    fn default() -> (pipeline: Pipeline)
        ensures
            pipeline.wf(),
            pipeline.pending().len() == 0,
            pipeline.batch_size() == DEFAULT_BATCH_SIZE,
    {
        Pipeline::new(DEFAULT_BATCH_SIZE)
    }
}

/// The queue of a ring of `capacity` slots after the records were written
/// one by one, each unless the ring was full.
pub open spec fn queue_after(
    queue: Seq<SerializedFileEventView>,
    capacity: int,
    records: Seq<SerializedFileEventView>,
) -> Seq<SerializedFileEventView>
    decreases records.len(),
{
    if records.len() == 0 {
        queue
    } else {
        let before = queue_after(queue, capacity, records.drop_last());
        if before.len() < capacity - 1 {
            before.push(records.last())
        } else {
            before
        }
    }
}

/// The records of some enriched events.
pub open spec fn records_of(events: Seq<EnhancedFileEvent>) -> Seq<SerializedFileEventView> {
    Seq::new(events.len(), |i: int| SerializedFileEventView::of_event(events[i]@))
}

/// The counters by kind after some events.
pub open spec fn counters_after_all(counters: EventCounters, events: Seq<EnhancedFileEvent>) -> EventCounters
    decreases events.len(),
{
    if events.len() == 0 {
        counters
    } else {
        counters_after(counters_after_all(counters, events.drop_last()), events.last()@)
    }
}

/// The sum of the processing times of some events.
pub open spec fn processing_total(events: Seq<EnhancedFileEvent>) -> int
    decreases events.len(),
{
    if events.len() == 0 {
        0
    } else {
        processing_total(events.drop_last()) + events.last().processing_time_ns
    }
}

/// How cache and parent index stand after the events were enriched one
/// after the other, each at some time, with the fingerprints `hashes`.
pub open spec fn batch_enriched<F: Fn(&Vec<u8>) -> FileProbe>(
    processor: &FileEventProcessor,
    entries: Entries,
    buckets: Buckets,
    entries_after: Entries,
    buckets_after: Buckets,
    events: Seq<SystemEvent>,
    hashes: Seq<Option<HashResult>>,
    read: &F,
) -> bool
    decreases events.len(),
{
    if events.len() == 0 {
        entries_after == entries && buckets_after == buckets
    } else {
        exists|mid_entries: Entries, mid_buckets: Buckets, now: u64|
            {
                &&& batch_enriched(
                    processor,
                    entries,
                    buckets,
                    mid_entries,
                    mid_buckets,
                    events.drop_last(),
                    hashes.drop_last(),
                    read,
                )
                &&& #[trigger] enriched(
                    processor.config(),
                    processor.strategy(),
                    mid_entries,
                    mid_buckets,
                    entries_after,
                    buckets_after,
                    &events.last(),
                    now,
                    hashes.last(),
                    read,
                )
            }
    }
}

/// The fingerprints of some enriched events.
pub open spec fn hashes_of(events: Seq<EnhancedFileEvent>) -> Seq<Option<HashResult>> {
    Seq::new(events.len(), |i: int| events[i].hash)
}

/// What a ring is after the records were written to it: a ring that is no
/// producer is as before; a producer has the records in its queue, each
/// unless the ring was full, has counted those written and those dropped,
/// and is otherwise set up as before.
pub open spec fn ring_after(
    before: &ZeroCopyRing,
    after: &ZeroCopyRing,
    records: Seq<SerializedFileEventView>,
) -> bool {
    let queue = queue_after(before.queue(), before.header().capacity as int, records);
    let written = queue.len() - before.queue().len();
    &&& after.wf()
    &&& after.config() == before.config()
    &&& after.producer() == before.producer()
    &&& after.event_fd() == before.event_fd()
    &&& after.header().capacity == before.header().capacity
    &&& after.header().read_pos == before.header().read_pos
    &&& if before.producer() {
        &&& after.queue() == queue
        &&& after.header().total_events == counted(before.header().total_events, written)
        &&& after.header().dropped_events == counted(
            before.header().dropped_events,
            records.len() - written,
        )
    } else {
        after.queue() == before.queue() && after.header() == before.header()
    }
}

/// Writing one more record to a ring that took some.
pub proof fn lemma_ring_after_push(
    before: &ZeroCopyRing,
    mid: &ZeroCopyRing,
    after: &ZeroCopyRing,
    records: Seq<SerializedFileEventView>,
    record: SerializedFileEventView,
    now: u64,
)
    requires
        before.wf(),
        ring_after(before, mid, records),
        after.wf(),
        after.config() == mid.config(),
        after.producer() == mid.producer(),
        after.event_fd() == mid.event_fd(),
        !mid.producer() ==> after.header() == mid.header() && after.queue() == mid.queue(),
        mid.producer() ==> after.header() == mid.header().after_push(now),
        mid.producer() ==> after.queue() == if mid.header().is_full() {
            mid.queue()
        } else {
            mid.queue().push(record)
        },
    ensures
        ring_after(before, after, records.push(record)),
{
    mid.lemma_wf();
    before.lemma_wf();
    after.lemma_wf();
    mid.header().lemma_used();
    mid.header().lemma_steps(now, 0);
    assert(records.push(record).drop_last() =~= records);
    let queue = queue_after(before.queue(), before.header().capacity as int, records);
    let written = queue.len() - before.queue().len();
    lemma_queue_after_len(before.queue(), before.header().capacity as int, records);
    if mid.producer() {
        lemma_counted(before.header().total_events, written, 1);
        lemma_counted(before.header().dropped_events, records.len() - written, 1);
        lemma_counted(before.header().total_events, written, 0);
        lemma_counted(before.header().dropped_events, records.len() - written, 0);
        assert(RingHeader::bump(mid.header().total_events) == counted(mid.header().total_events, 1));
        assert(RingHeader::bump(mid.header().dropped_events) == counted(
            mid.header().dropped_events,
            1,
        ));
    }
}

/// The queue grows by no more records than were written to it.
pub proof fn lemma_queue_after_len(
    queue: Seq<SerializedFileEventView>,
    capacity: int,
    records: Seq<SerializedFileEventView>,
)
    ensures
        queue.len() <= queue_after(queue, capacity, records).len() <= queue.len() + records.len(),
    decreases records.len(),
{
    if records.len() > 0 {
        lemma_queue_after_len(queue, capacity, records.drop_last());
    }
}

/// Flushes a batch: each event is enriched, written to the ring if there
/// is one, and counted; then the batch is counted with the time it took.
/// The enriched events are returned in the order of the batch.
///
/// `read` examines and reads a file for the enricher. An event that finds
/// the ring full is dropped from the ring, not from the result.
pub fn process_event_batch<F: Fn(&Vec<u8>) -> FileProbe>(
    events: &Vec<SystemEvent>,
    processor: &mut FileEventProcessor,
    ring: &mut Option<ZeroCopyRing>,
    metrics: &mut MetricsCollector,
    read: &F,
) -> (enhanced: Vec<EnhancedFileEvent>)
    requires
        old(processor).wf(),
        *old(ring) matches Some(r) ==> r.wf(),
        forall|i: int| 0 <= i < events@.len() ==> read.requires((&(#[trigger] events@[i]).path,)),
    ensures
        enhanced@.len() == events@.len(),
        forall|i: int|
            0 <= i < events@.len() ==> (#[trigger] enhanced@[i]).system_event@ == events@[i]@,
        final(processor).wf(),
        final(processor).config() == old(processor).config(),
        final(processor).strategy() == old(processor).strategy(),
        batch_enriched(
            old(processor),
            old(processor).entries(),
            old(processor).buckets(),
            final(processor).entries(),
            final(processor).buckets(),
            events@,
            hashes_of(enhanced@),
            read,
        ),
        *old(ring) is Some <==> *final(ring) is Some,
        *old(ring) matches Some(before) ==> ring_after(
            &before,
            &(*final(ring))->0,
            records_of(enhanced@),
        ),
        final(metrics).events_processed() == counted(
            old(metrics).events_processed(),
            events@.len() as int,
        ),
        final(metrics).total_processing_time_ns() == counted(
            old(metrics).total_processing_time_ns(),
            processing_total(enhanced@),
        ),
        final(metrics).counters() == counters_after_all(old(metrics).counters(), enhanced@),
        final(metrics).errors_count() == old(metrics).errors_count(),
        final(metrics).gauges() == old(metrics).gauges(),
        final(metrics).started() == old(metrics).started(),
        final(metrics).batches().batches == counted(old(metrics).batches().batches, 1),
        final(metrics).batches().events == counted(
            old(metrics).batches().events,
            events@.len() as int,
        ),
{
    let batch_start = unix_nanos();
    let mut enhanced: Vec<EnhancedFileEvent> = Vec::new();
    let mut i: usize = 0;
    proof {
        lemma_counted(metrics.events_processed(), 0, 0);
        lemma_counted(metrics.total_processing_time_ns(), 0, 0);
        if *ring is Some {
            let ghost r = (*ring)->0;
            r.lemma_wf();
            lemma_counted(r.header().total_events, 0, 0);
            lemma_counted(r.header().dropped_events, 0, 0);
            assert(records_of(enhanced@) =~= Seq::empty());
        }
    }
    while i < events.len()
        invariant
            i <= events@.len(),
            enhanced@.len() == i,
            forall|k: int| 0 <= k < events@.len() ==> read.requires((&(#[trigger] events@[k]).path,)),
            forall|k: int| 0 <= k < i ==> (#[trigger] enhanced@[k]).system_event@ == events@[k]@,
            old(processor).wf(),
            processor.wf(),
            processor.config() == old(processor).config(),
            processor.strategy() == old(processor).strategy(),
            batch_enriched(
                old(processor),
                old(processor).entries(),
                old(processor).buckets(),
                processor.entries(),
                processor.buckets(),
                events@.take(i as int),
                hashes_of(enhanced@),
                read,
            ),
            *old(ring) is Some <==> *ring is Some,
            *old(ring) matches Some(before) ==> before.wf() && ring_after(
                &before,
                &(*ring)->0,
                records_of(enhanced@),
            ),
            metrics.events_processed() == counted(old(metrics).events_processed(), i as int),
            metrics.total_processing_time_ns() == counted(
                old(metrics).total_processing_time_ns(),
                processing_total(enhanced@),
            ),
            metrics.counters() == counters_after_all(old(metrics).counters(), enhanced@),
            metrics.errors_count() == old(metrics).errors_count(),
            metrics.gauges() == old(metrics).gauges(),
            metrics.started() == old(metrics).started(),
            metrics.batches() == old(metrics).batches(),
        decreases events@.len() - i,
    {
        let ghost entries_mid = processor.entries();
        let ghost buckets_mid = processor.buckets();
        let ghost done = enhanced@;
        let start = unix_nanos();
        let hash = processor.enrich_at(&events[i], start, read);
        let end = unix_nanos();
        let event = EnhancedFileEvent {
            system_event: events[i].duplicate(),
            hash,
            processing_time_ns: end.saturating_sub(start),
        };
        let ghost ring_mid = *ring;
        match ring {
            Some(r) => {
                proof {
                    assert(r.wf());
                }
                r.push(&event);
            },
            None => {},
        }
        metrics.record_event(&event);
        enhanced.push(event);
        proof {
            assert(enhanced@.drop_last() =~= done);
            assert(events@.take(i + 1).drop_last() =~= events@.take(i as int));
            assert(events@.take(i + 1).last() == events@[i as int]);
            assert(hashes_of(enhanced@).drop_last() =~= hashes_of(done));
            assert(hashes_of(enhanced@).last() == hash);
            assert(records_of(enhanced@) =~= records_of(done).push(
                SerializedFileEventView::of_event(event@),
            ));
            assert(processing_total(done) >= 0) by {
                lemma_processing_total(done);
            }
            lemma_counted(old(metrics).events_processed(), i as int, 1);
            lemma_counted(
                old(metrics).total_processing_time_ns(),
                processing_total(done),
                event.processing_time_ns as int,
            );
            if *ring is Some {
                let ghost before = (*old(ring))->0;
                let ghost mid = ring_mid->0;
                let ghost after = (*ring)->0;
                if mid.producer() {
                    let ghost now = choose|now: u64|
                        after.header() == #[trigger] mid.header().after_push(now);
                    lemma_ring_after_push(
                        &before,
                        &mid,
                        &after,
                        records_of(done),
                        SerializedFileEventView::of_event(event@),
                        now,
                    );
                } else {
                    lemma_ring_after_push(
                        &before,
                        &mid,
                        &after,
                        records_of(done),
                        SerializedFileEventView::of_event(event@),
                        0,
                    );
                }
            }
        }
        i = i + 1;
    }
    proof {
        assert(events@.take(events@.len() as int) =~= events@);
    }
    let batch_end = unix_nanos();
    metrics.record_batch_processing(events.len(), batch_end.saturating_sub(batch_start));
    enhanced
}

/// A sum of processing times is not negative.
pub proof fn lemma_processing_total(events: Seq<EnhancedFileEvent>)
    ensures
        processing_total(events) >= 0,
    decreases events.len(),
{
    if events.len() > 0 {
        lemma_processing_total(events.drop_last());
    }
}

} // verus!
