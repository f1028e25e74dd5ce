//! Counters of what the pipeline did. Exporting them is the caller's part.

use vstd::prelude::*;
use crate::clock::{unix_nanos, NANOS_PER_SEC};
use crate::event::{EnhancedFileEvent, EnhancedFileEventView, SystemEventType, WatcherStats};

verus! {

/// A snapshot of the main counters.
#[derive(Debug, Clone, Copy, PartialEq, Eq, Structural)]
pub struct MetricsStats {
    /// Whole seconds since the collector was made.
    pub uptime_seconds: u64,
    pub events_processed: u64,
    pub errors_count: u64,
    pub total_processing_time_ns: u64,
}

/// Counters by kind of event and of fingerprints.
#[derive(Debug, Clone, Copy, PartialEq, Eq, Structural)]
pub struct EventCounters {
    pub created: u64,
    pub modified: u64,
    pub deleted: u64,
    pub moved: u64,
    pub metadata_changed: u64,
    /// Events that came with a fingerprint.
    pub files_hashed: u64,
    /// Events whose fingerprint was computed chunk by chunk.
    pub incremental_hashes: u64,
    /// The size recorded in the last fingerprint seen.
    pub last_hash_size: u32,
}

/// Totals over the batches processed.
#[derive(Debug, Clone, Copy, PartialEq, Eq, Structural)]
pub struct BatchCounters {
    pub batches: u64,
    pub events: u64,
    pub processing_time_ns: u64,
}

/// The latest levels reported to the collector.
#[derive(Debug, Clone, Copy, PartialEq, Eq, Structural)]
pub struct Gauges {
    pub pending_events: u32,
    pub buffer_capacity: u32,
    pub dropped_events: u64,
    pub watched_directories: usize,
    pub cache_entries: usize,
    pub cache_capacity: usize,
}

/// A counter after `n` more counts; it wraps at 2^64.
pub open spec fn counted(counter: u64, n: int) -> u64 {
    ((counter + n) % 0x1_0000_0000_0000_0000) as u64
}

/// Counting `a` and then `b` more is counting `a + b` more.
pub proof fn lemma_counted(counter: u64, a: int, b: int)
    requires
        a >= 0,
        b >= 0,
    ensures
        counted(counted(counter, a), b) == counted(counter, a + b),
        counted(counter, 0) == counter,
{
    vstd::arithmetic::div_mod::lemma_add_mod_noop(counter + a, b, 0x1_0000_0000_0000_0000);
    vstd::arithmetic::div_mod::lemma_mod_twice(counter + a, 0x1_0000_0000_0000_0000);
    vstd::arithmetic::div_mod::lemma_add_mod_noop(
        (counter + a) % 0x1_0000_0000_0000_0000,
        b,
        0x1_0000_0000_0000_0000,
    );
}

/// `level` as a percentage of `capacity`, rounded down; 0 for no capacity.
pub open spec fn percent_of(level: nat, capacity: nat) -> nat {
    if capacity > 0 {
        level * 100 / capacity
    } else {
        0
    }
}

/// The counters by kind after an event.
pub open spec fn counters_after(counters: EventCounters, event: EnhancedFileEventView) -> EventCounters {
    let by_kind = match event.system_event.event_type {
        SystemEventType::Created => EventCounters { created: counted(counters.created, 1), ..counters },
        SystemEventType::Modified => EventCounters {
            modified: counted(counters.modified, 1),
            ..counters
        },
        SystemEventType::Deleted => EventCounters { deleted: counted(counters.deleted, 1), ..counters },
        SystemEventType::Moved => EventCounters { moved: counted(counters.moved, 1), ..counters },
        SystemEventType::MetadataChanged => EventCounters {
            metadata_changed: counted(counters.metadata_changed, 1),
            ..counters
        },
    };
    match event.hash {
        None => by_kind,
        Some(h) => EventCounters {
            files_hashed: counted(by_kind.files_hashed, 1),
            incremental_hashes: if h.is_incremental {
                counted(by_kind.incremental_hashes, 1)
            } else {
                by_kind.incremental_hashes
            },
            last_hash_size: h.size,
            ..by_kind
        },
    }
}

/// A counter after `n` more counts.
pub fn count_more(counter: u64, n: u64) -> (after: u64)
    ensures
        after == counted(counter, n as int),
{
    counter.wrapping_add(n)
}

/// Collects the counters of the daemon.
#[derive(Debug, Clone, Copy, PartialEq, Eq, Structural)]
pub struct MetricsCollector {
    start_ns: u64,
    events_processed: u64,
    errors_count: u64,
    total_processing_time_ns: u64,
    counters: EventCounters,
    batches: BatchCounters,
    gauges: Gauges,
}

impl MetricsCollector {
    /// When the collector was made, in nanoseconds since the Unix epoch.
    pub closed spec fn started(&self) -> u64 {
        self.start_ns
    }

    /// Events recorded.
    pub closed spec fn events_processed(&self) -> u64 {
        self.events_processed
    }

    /// Errors recorded.
    pub closed spec fn errors_count(&self) -> u64 {
        self.errors_count
    }

    /// The sum of the processing times of the events recorded.
    pub closed spec fn total_processing_time_ns(&self) -> u64 {
        self.total_processing_time_ns
    }

    /// The counters by kind of event and of fingerprints.
    pub closed spec fn counters(&self) -> EventCounters {
        self.counters
    }

    /// The totals over the batches.
    pub closed spec fn batches(&self) -> BatchCounters {
        self.batches
    }

    /// The latest levels reported.
    pub closed spec fn gauges(&self) -> Gauges {
        self.gauges
    }

    /// A collector whose counters are all zero.
    pub open spec fn is_fresh(&self) -> bool {
        &&& self.events_processed() == 0
        &&& self.errors_count() == 0
        &&& self.total_processing_time_ns() == 0
        &&& self.counters() == (EventCounters {
            created: 0,
            modified: 0,
            deleted: 0,
            moved: 0,
            metadata_changed: 0,
            files_hashed: 0,
            incremental_hashes: 0,
            last_hash_size: 0,
        })
        &&& self.batches() == (BatchCounters { batches: 0, events: 0, processing_time_ns: 0 })
        &&& self.gauges() == (Gauges {
            pending_events: 0,
            buffer_capacity: 0,
            dropped_events: 0,
            watched_directories: 0,
            cache_entries: 0,
            cache_capacity: 0,
        })
    }

    /// A collector made at time `now`, with all counters zero.
    pub fn new_at(now: u64) -> (collector: MetricsCollector)
        ensures
            collector.started() == now,
            collector.is_fresh(),
    {
        MetricsCollector {
            start_ns: now,
            events_processed: 0,
            errors_count: 0,
            total_processing_time_ns: 0,
            counters: EventCounters {
                created: 0,
                modified: 0,
                deleted: 0,
                moved: 0,
                metadata_changed: 0,
                files_hashed: 0,
                incremental_hashes: 0,
                last_hash_size: 0,
            },
            batches: BatchCounters { batches: 0, events: 0, processing_time_ns: 0 },
            gauges: Gauges {
                pending_events: 0,
                buffer_capacity: 0,
                dropped_events: 0,
                watched_directories: 0,
                cache_entries: 0,
                cache_capacity: 0,
            },
        }
    }

    /// A collector made now, with all counters zero.
    pub fn new() -> (collector: MetricsCollector)
        ensures
            collector.is_fresh(),
    {
        MetricsCollector::new_at(unix_nanos())
    }

    /// Records a processed event: one more event, its processing time, its
    /// kind, and its fingerprint if it has one. The counters wrap at 2^64.
    pub fn record_event(&mut self, event: &EnhancedFileEvent)
        ensures
            final(self).events_processed() == counted(old(self).events_processed(), 1),
            final(self).total_processing_time_ns() == counted(
                old(self).total_processing_time_ns(),
                event.processing_time_ns as int,
            ),
            final(self).counters() == counters_after(old(self).counters(), event@),
            final(self).errors_count() == old(self).errors_count(),
            final(self).started() == old(self).started(),
            final(self).batches() == old(self).batches(),
            final(self).gauges() == old(self).gauges(),
    {
        self.events_processed = count_more(self.events_processed, 1);
        self.total_processing_time_ns = count_more(
            self.total_processing_time_ns,
            event.processing_time_ns,
        );
        match event.system_event.event_type {
            SystemEventType::Created => {
                self.counters.created = count_more(self.counters.created, 1);
            },
            SystemEventType::Modified => {
                self.counters.modified = count_more(self.counters.modified, 1);
            },
            SystemEventType::Deleted => {
                self.counters.deleted = count_more(self.counters.deleted, 1);
            },
            SystemEventType::Moved => {
                self.counters.moved = count_more(self.counters.moved, 1);
            },
            SystemEventType::MetadataChanged => {
                self.counters.metadata_changed = count_more(self.counters.metadata_changed, 1);
            },
        }
        if let Some(hash) = event.hash {
            self.counters.files_hashed = count_more(self.counters.files_hashed, 1);
            self.counters.last_hash_size = hash.size;
            if hash.is_incremental {
                self.counters.incremental_hashes = count_more(self.counters.incremental_hashes, 1);
            }
        }
    }

    /// Records an error. The counter wraps at 2^64.
    pub fn record_error(&mut self)
        ensures
            final(self).errors_count() == counted(old(self).errors_count(), 1),
            final(self).events_processed() == old(self).events_processed(),
            final(self).total_processing_time_ns() == old(self).total_processing_time_ns(),
            final(self).counters() == old(self).counters(),
            final(self).started() == old(self).started(),
            final(self).batches() == old(self).batches(),
            final(self).gauges() == old(self).gauges(),
    {
        self.errors_count = count_more(self.errors_count, 1);
    }

    /// Records that a batch of `batch_size` events took
    /// `processing_time_ns`. The totals wrap at 2^64.
    pub fn record_batch_processing(&mut self, batch_size: usize, processing_time_ns: u64)
        ensures
            final(self).batches() == (BatchCounters {
                batches: counted(old(self).batches().batches, 1),
                events: counted(old(self).batches().events, batch_size as int),
                processing_time_ns: counted(
                    old(self).batches().processing_time_ns,
                    processing_time_ns as int,
                ),
            }),
            final(self).errors_count() == old(self).errors_count(),
            final(self).events_processed() == old(self).events_processed(),
            final(self).total_processing_time_ns() == old(self).total_processing_time_ns(),
            final(self).counters() == old(self).counters(),
            final(self).started() == old(self).started(),
            final(self).gauges() == old(self).gauges(),
    {
        self.batches.batches = count_more(self.batches.batches, 1);
        self.batches.events = count_more(self.batches.events, batch_size as u64);
        self.batches.processing_time_ns = count_more(
            self.batches.processing_time_ns,
            processing_time_ns,
        );
    }

    /// Takes over the levels of the watcher.
    pub fn update_watcher_stats(&mut self, stats: &WatcherStats)
        ensures
            final(self).gauges() == (Gauges {
                pending_events: stats.pending_events,
                buffer_capacity: stats.buffer_capacity,
                dropped_events: stats.dropped_events,
                watched_directories: stats.watched_directories,
                ..old(self).gauges()
            }),
            final(self).errors_count() == old(self).errors_count(),
            final(self).events_processed() == old(self).events_processed(),
            final(self).total_processing_time_ns() == old(self).total_processing_time_ns(),
            final(self).counters() == old(self).counters(),
            final(self).started() == old(self).started(),
            final(self).batches() == old(self).batches(),
    {
        self.gauges.pending_events = stats.pending_events;
        self.gauges.buffer_capacity = stats.buffer_capacity;
        self.gauges.dropped_events = stats.dropped_events;
        self.gauges.watched_directories = stats.watched_directories;
    }

    /// Takes over the levels of the hash cache.
    pub fn update_cache_stats(&mut self, entries: usize, capacity: usize)
        ensures
            final(self).gauges() == (Gauges {
                cache_entries: entries,
                cache_capacity: capacity,
                ..old(self).gauges()
            }),
            final(self).errors_count() == old(self).errors_count(),
            final(self).events_processed() == old(self).events_processed(),
            final(self).total_processing_time_ns() == old(self).total_processing_time_ns(),
            final(self).counters() == old(self).counters(),
            final(self).started() == old(self).started(),
            final(self).batches() == old(self).batches(),
    {
        self.gauges.cache_entries = entries;
        self.gauges.cache_capacity = capacity;
    }

    /// How full the watcher's buffer is, in percent, rounded down; 0 for a
    /// buffer without capacity.
    pub fn buffer_utilization_percent(&self) -> (percent: u64)
        ensures
            percent == percent_of(
                self.gauges().pending_events as nat,
                self.gauges().buffer_capacity as nat,
            ),
    {
        if self.gauges.buffer_capacity > 0 {
            self.gauges.pending_events as u64 * 100 / self.gauges.buffer_capacity as u64
        } else {
            0
        }
    }

    /// How full the hash cache is, in percent, rounded down; 0 for a cache
    /// without capacity.
    pub fn cache_utilization_percent(&self) -> (percent: u128)
        ensures
            percent == percent_of(
                self.gauges().cache_entries as nat,
                self.gauges().cache_capacity as nat,
            ),
    {
        if self.gauges.cache_capacity > 0 {
            self.gauges.cache_entries as u128 * 100 / self.gauges.cache_capacity as u128
        } else {
            0
        }
    }

    /// The main counters at time `now`. The uptime is in whole seconds, and
    /// zero if `now` is before the collector was made.
    pub fn get_stats_at(&self, now: u64) -> (stats: MetricsStats)
        ensures
            stats == (MetricsStats {
                uptime_seconds: if now >= self.started() {
                    ((now - self.started()) / (NANOS_PER_SEC as int)) as u64
                } else {
                    0
                },
                events_processed: self.events_processed(),
                errors_count: self.errors_count(),
                total_processing_time_ns: self.total_processing_time_ns(),
            }),
    {
        MetricsStats {
            uptime_seconds: if now >= self.start_ns {
                (now - self.start_ns) / NANOS_PER_SEC
            } else {
                0
            },
            events_processed: self.events_processed,
            errors_count: self.errors_count,
            total_processing_time_ns: self.total_processing_time_ns,
        }
    }

    /// The main counters now.
    pub fn get_stats(&self) -> (stats: MetricsStats)
        ensures
            stats.events_processed == self.events_processed(),
            stats.errors_count == self.errors_count(),
            stats.total_processing_time_ns == self.total_processing_time_ns(),
    {
        self.get_stats_at(unix_nanos())
    }

    /// The counters by kind of event and of fingerprints.
    pub fn event_counters(&self) -> (counters: EventCounters)
        ensures
            counters == self.counters(),
    {
        self.counters
    }

    /// The totals over the batches.
    pub fn batch_counters(&self) -> (batches: BatchCounters)
        ensures
            batches == self.batches(),
    {
        self.batches
    }

    /// The latest levels reported.
    pub fn current_gauges(&self) -> (gauges: Gauges)
        ensures
            gauges == self.gauges(),
    {
        self.gauges
    }

    /// The mean processing time of the events recorded, rounded down; 0 if
    /// none was recorded.
    pub fn average_processing_time_ns(&self) -> (average: u64)
        ensures
            average == if self.events_processed() > 0 {
                self.total_processing_time_ns() / self.events_processed()
            } else {
                0
            },
    {
        if self.events_processed > 0 {
            self.total_processing_time_ns / self.events_processed
        } else {
            0
        }
    }
}

impl Default for MetricsCollector {
    fn default() -> (collector: MetricsCollector)
        ensures
            collector.is_fresh(),
    {
        MetricsCollector::new()
    }
}

} // verus!
