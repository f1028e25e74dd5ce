use retrigger::cache::{FileEventProcessor, FileProbe};
use retrigger::config::{
    ConfigError, ConfigManager, DaemonConfig, LoggingConfig, PatternConfig, PerformanceConfig,
    ServerConfig, WatcherConfig,
};
use retrigger::daemon::get_stats;
use retrigger::event::{SystemEvent, SystemEventType};
use retrigger::metrics::MetricsCollector;
use retrigger::patterns::CompiledPatterns;
use retrigger::pipeline::{process_event_batch, Pipeline, PipelineState};
use retrigger::ring::{ZeroCopyConfig, ZeroCopyRing};
use retrigger::watcher::SystemWatcher;

fn created(path: &str) -> SystemEvent {
    SystemEvent {
        path: path.as_bytes().to_vec(),
        event_type: SystemEventType::Created,
        timestamp: 0,
        size: 1,
        is_directory: false,
    }
}

fn patterns(wanted: &[&str], exclude: &[&str]) -> CompiledPatterns {
    CompiledPatterns::new(&PatternConfig {
        include_patterns: wanted.iter().map(|s| s.to_string()).collect(),
        exclude: exclude.iter().map(|s| s.to_string()).collect(),
        ..Default::default()
    })
    .unwrap()
}

#[test]
fn test_pattern_matching() {
    let config = PatternConfig {
        include_patterns: vec!["**/*.rs".to_string()],
        exclude: vec!["**/target/**".to_string()],
        ..Default::default()
    };

    let patterns = CompiledPatterns::new(&config).unwrap();

    assert!(patterns.should_watch(b"src/main.rs"));
    assert!(!patterns.should_watch(b"target/debug/main.rs"));
    assert!(!patterns.should_watch(b"README.md"));
}

#[test]
fn test_config_load_save() {
    // The configuration as it is read from a file that sets these values.
    let mut config = DaemonConfig::default();
    config.server.bind_address = "0.0.0.0".to_string();
    config.server.port = 8080;
    config.watcher.event_buffer_size = 32768;
    config.patterns.include_patterns = vec!["**/*.rs".to_string(), "**/*.toml".to_string()];
    config.patterns.exclude = vec!["**/target/**".to_string()];

    let mut manager = ConfigManager::new().unwrap();
    assert_eq!(manager.load(config, "/etc/retrigger.toml".to_string()), Ok(()));

    let config = manager.get_config();
    assert_eq!(config.server.bind_address, "0.0.0.0");
    assert_eq!(config.server.port, 8080);
    assert_eq!(config.watcher.event_buffer_size, 32768);
    assert!(manager.get_patterns().should_watch(b"src/lib.rs"));
    assert!(!manager.get_patterns().should_watch(b"target/x.rs"));
    assert_eq!(manager.start_hot_reload(), Ok(&"/etc/retrigger.toml".to_string()));
}

#[test]
fn invalid_patterns_are_refused() {
    let bad = PatternConfig {
        include_patterns: vec!["ok/**".to_string(), "a[".to_string()],
        exclude: vec![],
        ..Default::default()
    };
    assert!(matches!(
        CompiledPatterns::new(&bad),
        Err(ConfigError::InvalidIncludePattern(1))
    ));
    let bad = PatternConfig {
        include_patterns: vec![],
        exclude: vec!["{a".to_string()],
        ..Default::default()
    };
    assert!(matches!(
        CompiledPatterns::new(&bad),
        Err(ConfigError::InvalidExcludePattern(0))
    ));
    let mut manager = ConfigManager::new().unwrap();
    assert_eq!(manager.start_hot_reload(), Err(ConfigError::NoConfigFile));
    let mut config = DaemonConfig::default();
    config.server.port = 1;
    config.patterns.exclude = vec!["{a".to_string()];
    assert_eq!(
        manager.load(config, "x".to_string()),
        Err(ConfigError::InvalidExcludePattern(0))
    );
    assert_eq!(manager.get_config().server.port, 9090);
    assert_eq!(manager.start_hot_reload(), Err(ConfigError::NoConfigFile));
}

#[test]
fn validation_names_the_first_fault() {
    let good = DaemonConfig::default();
    assert_eq!(ConfigManager::validate(&good), Ok(()));
    let mut c = DaemonConfig::default();
    c.server.port = 0;
    c.server.max_connections = 0;
    assert_eq!(ConfigManager::validate(&c), Err(ConfigError::InvalidPort));
    c.server.port = 1;
    assert_eq!(ConfigManager::validate(&c), Err(ConfigError::NoConnections));
    c.server.max_connections = 1;
    c.watcher.event_buffer_size = 0;
    c.patterns.include_patterns = vec!["a[".to_string()];
    assert_eq!(ConfigManager::validate(&c), Err(ConfigError::NoEventBuffer));
    c.watcher.event_buffer_size = 1;
    c.patterns.exclude = vec!["fine".to_string(), "b[".to_string()];
    assert_eq!(ConfigManager::validate(&c), Err(ConfigError::InvalidIncludePattern(0)));
    c.patterns.include_patterns = vec![];
    assert_eq!(ConfigManager::validate(&c), Err(ConfigError::InvalidExcludePattern(1)));
}

#[test]
fn configuration_defaults() {
    let server = ServerConfig::default();
    assert_eq!(server.bind_address, "127.0.0.1");
    assert_eq!(server.port, 9090);
    assert_eq!(server.max_connections, 1000);
    assert_eq!(server.request_timeout_ms, 30000);
    assert!(server.enable_metrics);
    assert_eq!(server.metrics_port, 9091);
    let watcher = WatcherConfig::default();
    assert!(watcher.watch_paths.is_empty());
    assert_eq!(watcher.event_buffer_size, 65536);
    assert_eq!(watcher.hash_cache_size, 100000);
    assert_eq!(watcher.hash_cache_ttl_secs, 3600);
    assert_eq!(watcher.hash_block_size, 4096);
    let performance = PerformanceConfig::default();
    assert_eq!(performance.worker_threads, 0);
    assert!(performance.enable_simd);
    assert_eq!(performance.event_batch_size, 100);
    assert_eq!(performance.poll_interval_us, 1000);
    assert!(performance.enable_zero_copy);
    let logging = LoggingConfig::default();
    assert_eq!(logging.level, "info");
    assert_eq!(logging.format, "pretty");
    assert_eq!(logging.file, None);
    assert!(!logging.structured);
    let patterns = PatternConfig::default();
    assert_eq!(patterns.include_patterns, vec!["**/*".to_string()]);
    assert_eq!(
        patterns.exclude,
        vec!["**/node_modules/**", "**/.git/**", "**/target/**", "**/*.log", "**/.*"]
    );
    assert_eq!(patterns.max_file_size, 100 * 1024 * 1024);
    assert!(patterns.ignore_binary);
}

#[test]
fn batch_fills_and_flushes() {
    let all = patterns(&["**"], &["**/*.log"]);
    let mut pipeline = Pipeline::new(3);
    assert_eq!(pipeline.state(), PipelineState::Idle);
    assert!(pipeline.on_tick().is_none());
    assert!(pipeline.on_event(created("/t/a"), &all).is_none());
    assert_eq!(pipeline.state(), PipelineState::Accumulating);
    // An event that is not watched does not count.
    assert!(pipeline.on_event(created("/t/x.log"), &all).is_none());
    assert!(pipeline.on_event(created("/t/b"), &all).is_none());
    let batch = pipeline.on_event(created("/t/c"), &all).unwrap();
    assert_eq!(batch, vec![created("/t/a"), created("/t/b"), created("/t/c")]);
    assert_eq!(pipeline.state(), PipelineState::Idle);
    assert!(pipeline.on_event(created("/t/d"), &all).is_none());
    assert_eq!(pipeline.on_tick(), Some(vec![created("/t/d")]));
    assert!(pipeline.on_tick().is_none());
    assert!(pipeline.on_event(created("/t/e"), &all).is_none());
    assert_eq!(pipeline.on_close(), vec![created("/t/e")]);
    assert!(pipeline.on_close().is_empty());
    // Batches of no event are batches of one.
    let mut single = Pipeline::new(0);
    assert_eq!(single.on_event(created("/t/a"), &all), Some(vec![created("/t/a")]));
    let mut default = Pipeline::default();
    for i in 0..99 {
        assert!(default.on_event(created(&format!("/t/{i}")), &all).is_none());
    }
    assert_eq!(default.on_event(created("/t/99"), &all).unwrap().len(), 100);
}

#[test]
fn flush_enriches_writes_and_counts() {
    let mut processor = FileEventProcessor::new();
    let mut ring = Some(
        ZeroCopyRing::create_producer(
            ZeroCopyConfig {
                memory_size: 1 << 20,
                ring_capacity: 4,
                shared_path: "/tmp/p.mmap".to_string(),
                enable_notifications: false,
                consumer_timeout_ms: 1,
            },
            1,
            None,
        )
        .unwrap(),
    );
    let mut metrics = MetricsCollector::new_at(0);
    let read = |p: &Vec<u8>| {
        if p.ends_with(b"gone") {
            FileProbe { stat_len: None, contents: None }
        } else {
            FileProbe { stat_len: Some(p.len() as u64), contents: Some(p.clone()) }
        }
    };
    let events = vec![
        created("/t/a"),
        created("/t/gone"),
        created("/t/b"),
        created("/t/c"),
        created("/t/d"),
    ];
    let out = process_event_batch(&events, &mut processor, &mut ring, &mut metrics, &read);
    assert_eq!(out.len(), 5);
    for (e, o) in events.iter().zip(out.iter()) {
        assert_eq!(&o.system_event, e);
    }
    assert_eq!(out[0].hash.unwrap().hash, xxhash_rust::xxh3::xxh3_64(b"/t/a"));
    assert_eq!(out[1].hash, None);
    assert!(out[4].hash.is_some());
    assert_eq!(processor.cache_stats().0, 4);
    // Four slots hold three events: two were dropped from the ring.
    let stats = ring.as_ref().unwrap().stats();
    assert_eq!(stats.used, 3);
    assert_eq!(stats.total_events, 3);
    assert_eq!(stats.dropped_events, 2);
    let counters = metrics.get_stats_at(0);
    assert_eq!(counters.events_processed, 5);
    assert_eq!(counters.errors_count, 0);
    assert_eq!(metrics.event_counters().created, 5);
    assert_eq!(metrics.event_counters().files_hashed, 4);
    assert_eq!(metrics.batch_counters().batches, 1);
    assert_eq!(metrics.batch_counters().events, 5);
    // Without a ring the rest is the same.
    let mut none: Option<ZeroCopyRing> = None;
    let out = process_event_batch(&events, &mut processor, &mut none, &mut metrics, &read);
    assert_eq!(out.len(), 5);
    assert!(none.is_none());
    assert_eq!(metrics.get_stats_at(0).events_processed, 10);
    let empty = process_event_batch(&vec![], &mut processor, &mut none, &mut metrics, &read);
    assert!(empty.is_empty());
    assert_eq!(metrics.batch_counters().batches, 3);
}

#[test]
fn daemon_counters_are_gathered() {
    let mut watcher = SystemWatcher::stub();
    assert_eq!(watcher.watch_directory(b"/t".to_vec(), true, 0), Ok(()));
    let mut processor = FileEventProcessor::new();
    processor.get_or_compute(b"/t/a", 0, 1, || {
        Some(retrigger::hash::HashResult { hash: 1, size: 1, is_incremental: false })
    });
    let mut metrics = MetricsCollector::new_at(2_000_000_000);
    metrics.record_error();
    let stats = get_stats(&watcher, &processor, &metrics, &None, 9_500_000_000);
    assert_eq!(stats.watcher_stats.watched_directories, 1);
    assert_eq!(stats.cache_entries, 1);
    assert_eq!(stats.cache_capacity, 1_000_000);
    assert_eq!(stats.detailed_cache_stats.directory_count, 1);
    assert_eq!(stats.ipc_stats, None);
    assert_eq!(stats.uptime_seconds, 7);
    assert_eq!(stats.events_processed, 0);
    assert_eq!(stats.errors_count, 1);
}
