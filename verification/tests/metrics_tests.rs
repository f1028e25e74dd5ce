use retrigger::event::{EnhancedFileEvent, SystemEvent, SystemEventType, WatcherStats};
use retrigger::hash::HashResult;
use retrigger::metrics::MetricsCollector;

#[test]
fn test_metrics_collector() {
    let mut collector = MetricsCollector::new();

    let system_event = SystemEvent {
        path: b"/test/file.txt".to_vec(),
        event_type: SystemEventType::Created,
        timestamp: 1234567890,
        size: 1024,
        is_directory: false,
    };

    let enhanced_event = EnhancedFileEvent {
        system_event,
        hash: None,
        processing_time_ns: 1_000_000,
    };

    collector.record_event(&enhanced_event);

    let stats = collector.get_stats();
    assert_eq!(stats.events_processed, 1);
    assert_eq!(stats.total_processing_time_ns, 1_000_000);
}

#[test]
fn test_average_processing_time() {
    let mut collector = MetricsCollector::new();

    for i in 0..10 {
        let system_event = SystemEvent {
            path: format!("/test/file{}.txt", i).into_bytes(),
            event_type: SystemEventType::Modified,
            timestamp: 1234567890 + i as u64,
            size: 1024,
            is_directory: false,
        };

        let enhanced_event = EnhancedFileEvent {
            system_event,
            hash: None,
            processing_time_ns: (i + 1) * 1_000_000,
        };

        collector.record_event(&enhanced_event);
    }

    let avg = collector.average_processing_time_ns();
    assert_eq!(avg, 5_500_000);
}

fn event(kind: SystemEventType, hash: Option<HashResult>, time: u64) -> EnhancedFileEvent {
    EnhancedFileEvent {
        system_event: SystemEvent {
            path: b"/t/a".to_vec(),
            event_type: kind,
            timestamp: 1,
            size: 2,
            is_directory: false,
        },
        hash,
        processing_time_ns: time,
    }
}

#[test]
fn fresh_collector_is_all_zero() {
    let collector = MetricsCollector::new_at(5_000_000_000);
    let stats = collector.get_stats_at(8_999_999_999);
    assert_eq!(stats.uptime_seconds, 3);
    assert_eq!(stats.events_processed, 0);
    assert_eq!(stats.errors_count, 0);
    assert_eq!(stats.total_processing_time_ns, 0);
    assert_eq!(collector.get_stats_at(1).uptime_seconds, 0);
    assert_eq!(collector.average_processing_time_ns(), 0);
    assert_eq!(collector.event_counters().created, 0);
    assert_eq!(collector.batch_counters().batches, 0);
    assert_eq!(MetricsCollector::default().get_stats().events_processed, 0);
}

#[test]
fn counters_by_kind_and_fingerprint() {
    let mut collector = MetricsCollector::new_at(0);
    collector.record_event(&event(SystemEventType::Created, None, 10));
    collector.record_event(&event(
        SystemEventType::Modified,
        Some(HashResult { hash: 1, size: 77, is_incremental: false }),
        20,
    ));
    collector.record_event(&event(
        SystemEventType::Modified,
        Some(HashResult { hash: 1, size: 88, is_incremental: true }),
        30,
    ));
    collector.record_event(&event(SystemEventType::Deleted, None, 0));
    collector.record_event(&event(SystemEventType::Moved, None, 0));
    collector.record_event(&event(SystemEventType::MetadataChanged, None, 0));
    let counters = collector.event_counters();
    assert_eq!(counters.created, 1);
    assert_eq!(counters.modified, 2);
    assert_eq!(counters.deleted, 1);
    assert_eq!(counters.moved, 1);
    assert_eq!(counters.metadata_changed, 1);
    assert_eq!(counters.files_hashed, 2);
    assert_eq!(counters.incremental_hashes, 1);
    assert_eq!(counters.last_hash_size, 88);
    assert_eq!(collector.get_stats_at(0).events_processed, 6);
    assert_eq!(collector.get_stats_at(0).total_processing_time_ns, 60);
    assert_eq!(collector.average_processing_time_ns(), 10);
}

#[test]
fn errors_batches_and_gauges() {
    let mut collector = MetricsCollector::new_at(0);
    collector.record_error();
    collector.record_error();
    assert_eq!(collector.get_stats_at(0).errors_count, 2);
    collector.record_batch_processing(100, 5000);
    collector.record_batch_processing(7, 600);
    let batches = collector.batch_counters();
    assert_eq!(batches.batches, 2);
    assert_eq!(batches.events, 107);
    assert_eq!(batches.processing_time_ns, 5600);
    assert_eq!(collector.buffer_utilization_percent(), 0);
    assert_eq!(collector.cache_utilization_percent(), 0);
    collector.update_watcher_stats(&WatcherStats {
        pending_events: 30,
        buffer_capacity: 120,
        dropped_events: 4,
        total_events: 9,
        watched_directories: 2,
    });
    collector.update_cache_stats(1, 3);
    let gauges = collector.current_gauges();
    assert_eq!(gauges.pending_events, 30);
    assert_eq!(gauges.buffer_capacity, 120);
    assert_eq!(gauges.dropped_events, 4);
    assert_eq!(gauges.watched_directories, 2);
    assert_eq!(gauges.cache_entries, 1);
    assert_eq!(gauges.cache_capacity, 3);
    assert_eq!(collector.buffer_utilization_percent(), 25);
    assert_eq!(collector.cache_utilization_percent(), 33);
}

#[test]
fn counters_wrap() {
    let mut collector = MetricsCollector::new_at(0);
    collector.record_event(&event(SystemEventType::Created, None, u64::MAX));
    collector.record_event(&event(SystemEventType::Created, None, 2));
    assert_eq!(collector.get_stats_at(0).total_processing_time_ns, 1);
}
