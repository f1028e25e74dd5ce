//! What the daemon reports of itself.

use vstd::prelude::*;
use crate::cache::{DetailedCacheStats, FileEventProcessor};
use crate::event::WatcherStats;
use crate::metrics::MetricsCollector;
use crate::ring::{RingStats, ZeroCopyRing};
use crate::watcher::SystemWatcher;

verus! {

/// The counters of all parts of the daemon.
#[derive(Debug, Clone, Copy, PartialEq, Eq, Structural)]
pub struct DaemonStats {
    pub watcher_stats: WatcherStats,
    pub cache_entries: usize,
    pub cache_capacity: usize,
    pub detailed_cache_stats: DetailedCacheStats,
    pub ipc_stats: Option<RingStats>,
    pub uptime_seconds: u64,
    pub events_processed: u64,
    pub errors_count: u64,
}

/// Gathers the counters of the daemon's parts at time `now`.
pub fn get_stats(
    watcher: &SystemWatcher,
    processor: &FileEventProcessor,
    metrics: &MetricsCollector,
    ring: &Option<ZeroCopyRing>,
    now: u64,
) -> (stats: DaemonStats)
    requires
        ring matches Some(r) ==> r.wf(),
    ensures
        stats.watcher_stats == watcher.stats(),
        stats.cache_entries == processor.entries().dom().len(),
        stats.cache_capacity == processor.config().max_entries,
        stats.detailed_cache_stats.entry_count == processor.entries().dom().len(),
        stats.detailed_cache_stats.directory_count == processor.buckets().dom().len(),
        stats.detailed_cache_stats.capacity == processor.config().max_entries,
        stats.detailed_cache_stats.ttl_seconds == processor.config().ttl_seconds,
        stats.ipc_stats == (match ring {
            Some(r) => Some(RingStats::of_header(r.header())),
            None => None,
        }),
        stats.events_processed == metrics.events_processed(),
        stats.errors_count == metrics.errors_count(),
        stats.uptime_seconds == if now >= metrics.started() {
            ((now - metrics.started()) / 1_000_000_000) as u64
        } else {
            0
        },
{
    let (cache_entries, cache_capacity) = processor.cache_stats();
    let counters = metrics.get_stats_at(now);
    let ipc_stats = match ring {
        Some(r) => Some(r.stats()),
        None => None,
    };
    DaemonStats {
        watcher_stats: watcher.get_stats(),
        cache_entries,
        cache_capacity,
        detailed_cache_stats: processor.detailed_cache_stats(),
        ipc_stats,
        uptime_seconds: counters.uptime_seconds,
        events_processed: counters.events_processed,
        errors_count: counters.errors_count,
    }
}

} // verus!
