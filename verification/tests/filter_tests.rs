use retrigger::event::{SystemEvent, SystemEventType, WatcherStats};
use retrigger::filter::EventFilter;
use retrigger::glob::{any_match, glob_match};
use retrigger::path::{bytes_eq, depth_of, parent_of, under, within};
use retrigger::watcher::{decode_polled, FileEvent, SystemWatcher, WatcherError};

fn modified(path: &[u8], size: u64) -> SystemEvent {
    SystemEvent {
        path: path.to_vec(),
        event_type: SystemEventType::Modified,
        timestamp: 1,
        size,
        is_directory: false,
    }
}

fn watcher(filter: EventFilter) -> SystemWatcher {
    let mut w = SystemWatcher::new(true).unwrap();
    w.set_event_filter(filter);
    w
}

fn open_filter(debounce_ms: u64) -> EventFilter {
    EventFilter {
        include_patterns: vec![],
        exclude_patterns: vec![],
        debounce_ms,
        min_file_size: 0,
        max_file_size: None,
    }
}

#[test]
fn test_watcher_creation() {
    if let Ok(watcher) = SystemWatcher::new(true) {
        let stats = watcher.get_stats();
        assert_eq!(stats.watched_directories, 0);
    }
    assert!(matches!(SystemWatcher::new(false), Err(WatcherError::CreateFailed)));
}

#[test]
fn glob_star_stops_at_slash() {
    assert!(glob_match(b"*", b""));
    assert!(glob_match(b"*", b"abc"));
    assert!(!glob_match(b"*", b"a/b"));
    assert!(glob_match(b"*.rs", b"main.rs"));
    assert!(!glob_match(b"*.rs", b"src/main.rs"));
    assert!(glob_match(b"src/*.rs", b"src/main.rs"));
    assert!(!glob_match(b"src/*.rs", b"src/a/main.rs"));
    assert!(glob_match(b"a*b*c", b"a--b--c"));
    assert!(!glob_match(b"a*b*c", b"a--b--"));
}

#[test]
fn glob_double_star_crosses_slashes() {
    assert!(glob_match(b"**", b""));
    assert!(glob_match(b"**", b"a/b/c"));
    assert!(glob_match(b"**/*.rs", b"src/main.rs"));
    assert!(glob_match(b"**/*.rs", b"/a/b/c/main.rs"));
    assert!(!glob_match(b"**/*.rs", b"main.rs"));
    assert!(glob_match(b"**/node_modules/**", b"/p/node_modules/x/y.js"));
    assert!(!glob_match(b"**/node_modules/**", b"/p/node_modules"));
    assert!(glob_match(b"***", b"a/b"));
    assert!(glob_match(b"a**z", b"a/x/y/z"));
}

#[test]
fn glob_question_mark_and_literals() {
    assert!(glob_match(b"?", b"a"));
    assert!(!glob_match(b"?", b""));
    assert!(!glob_match(b"?", b"/"));
    assert!(!glob_match(b"?", b"ab"));
    assert!(glob_match(b"a?c", b"abc"));
    assert!(!glob_match(b"a?c", b"a/c"));
    assert!(glob_match(b"", b""));
    assert!(!glob_match(b"", b"a"));
    assert!(glob_match(b"a.b", b"a.b"));
    // A dot is a dot, brackets are brackets.
    assert!(!glob_match(b"a.b", b"axb"));
    assert!(glob_match(b"[x](y)", b"[x](y)"));
    assert!(!glob_match(b"abc", b"abd"));
    assert!(!glob_match(b"abc", b"ab"));
}

#[test]
fn glob_question_mark_takes_one_character() {
    // A character of two bytes, one of three, one of four.
    assert!(glob_match(b"?.txt", "\u{e9}.txt".as_bytes()));
    assert!(glob_match(b"?", "\u{20ac}".as_bytes()));
    assert!(glob_match(b"?", "\u{1f600}".as_bytes()));
    assert!(!glob_match(b"??", "\u{e9}".as_bytes()));
    assert!(glob_match(b"??", "\u{e9}\u{e9}".as_bytes()));
    assert!(glob_match(b"a?c", "a\u{e9}c".as_bytes()));
    assert!(!glob_match(b"a?c", "a\u{e9}\u{e9}c".as_bytes()));
    assert!(glob_match(b"*?", "\u{e9}".as_bytes()));
    assert!(!glob_match(b"*??", "\u{e9}".as_bytes()));
    assert!(glob_match(b"*??", "x\u{e9}".as_bytes()));
    assert!(glob_match(b"**/?.log", "/var/\u{fc}.log".as_bytes()));
    // Literal bytes of a pattern match the same bytes of a path.
    assert!(glob_match("caf\u{e9}/*".as_bytes(), "caf\u{e9}/menu".as_bytes()));
    // A byte that only continues a character is no character by itself.
    assert!(!glob_match(b"?", &[0xa9]));
    assert!(glob_match(b"*", &[0xa9]));
}

#[test]
fn any_match_over_a_list() {
    let patterns = vec![b"*.tmp".to_vec(), b"**/.git/**".to_vec()];
    assert!(any_match(&patterns, b"a.tmp"));
    assert!(any_match(&patterns, b"/r/.git/config"));
    assert!(!any_match(&patterns, b"/r/a.txt"));
    assert!(!any_match(&vec![], b"a"));
}

#[test]
fn default_filter() {
    let filter = EventFilter::default();
    assert!(filter.include_patterns.is_empty());
    assert_eq!(
        filter.exclude_patterns,
        vec![
            b"**/node_modules/**".to_vec(),
            b"**/.git/**".to_vec(),
            b"**/.*".to_vec(),
            b"**/*.tmp".to_vec(),
            b"**/*.swp".to_vec(),
        ]
    );
    assert_eq!(filter.debounce_ms, 100);
    assert_eq!(filter.min_file_size, 0);
    assert_eq!(filter.max_file_size, None);
    let mut w = SystemWatcher::new(true).unwrap();
    assert!(w.should_process_event_at(&modified(b"/t/a.txt", 1), 1000));
    assert!(!w.should_process_event_at(&modified(b"/t/node_modules/a.js", 1), 1000));
    assert!(!w.should_process_event_at(&modified(b"/t/.git/HEAD", 1), 1000));
    assert!(!w.should_process_event_at(&modified(b"/t/.hidden", 1), 1000));
    assert!(!w.should_process_event_at(&modified(b"/t/x.tmp", 1), 1000));
    assert!(!w.should_process_event_at(&modified(b"/t/x.swp", 1), 1000));
}

#[test]
fn debounce_of_one_path() {
    let mut w = watcher(open_filter(100));
    let e = modified(b"/t/a.txt", 10);
    assert!(w.should_process_event_at(&e, 5000));
    assert!(!w.should_process_event_at(&e, 5050));
    assert!(w.should_process_event_at(&e, 5120));
    // The window counts from the last event let through.
    assert!(!w.should_process_event_at(&e, 5219));
    assert!(w.should_process_event_at(&e, 5220));
    // Another path has its own window.
    assert!(w.should_process_event_at(&modified(b"/t/b.txt", 10), 5221));
    // A clock that went back lets nothing through.
    assert!(!w.should_process_event_at(&e, 100));
}

#[test]
fn debounce_off_lets_everything_through() {
    let mut w = watcher(open_filter(0));
    let e = modified(b"/t/a.txt", 10);
    assert!(w.should_process_event_at(&e, 1));
    assert!(w.should_process_event_at(&e, 1));
    assert!(w.should_process_event(&e));
    assert!(w.should_process_event(&e));
}

#[test]
fn rejected_events_do_not_touch_the_window() {
    let mut filter = open_filter(100);
    filter.min_file_size = 5;
    let mut w = watcher(filter);
    assert!(!w.should_process_event_at(&modified(b"/t/a", 1), 1000));
    assert!(w.should_process_event_at(&modified(b"/t/a", 5), 1001));
}

#[test]
fn size_bounds_and_patterns() {
    let mut w = watcher(EventFilter {
        include_patterns: vec![b"**/*.rs".to_vec(), b"**/*.toml".to_vec()],
        exclude_patterns: vec![b"**/target/**".to_vec()],
        debounce_ms: 0,
        min_file_size: 10,
        max_file_size: Some(20),
    });
    assert!(w.should_process_event_at(&modified(b"/p/src/main.rs", 10), 0));
    assert!(w.should_process_event_at(&modified(b"/p/Cargo.toml", 20), 0));
    assert!(!w.should_process_event_at(&modified(b"/p/src/main.rs", 9), 0));
    assert!(!w.should_process_event_at(&modified(b"/p/src/main.rs", 21), 0));
    assert!(!w.should_process_event_at(&modified(b"/p/README.md", 15), 0));
    assert!(!w.should_process_event_at(&modified(b"/p/target/debug/main.rs", 15), 0));
}

fn record(path: Option<&[u8]>, code: u8) -> FileEvent {
    FileEvent {
        path: path.map(|p| p.to_vec()),
        event_type: code,
        timestamp: 42,
        size: 7,
        is_directory: false,
    }
}

#[test]
fn polled_records_become_events() {
    assert_eq!(
        decode_polled(&record(Some(b"/t/a"), 3)),
        Some(SystemEvent {
            path: b"/t/a".to_vec(),
            event_type: SystemEventType::Deleted,
            timestamp: 42,
            size: 7,
            is_directory: false,
        })
    );
    assert_eq!(decode_polled(&record(None, 1)), None);
    assert_eq!(decode_polled(&record(Some(b"/t/a"), 0)), None);
    assert_eq!(decode_polled(&record(Some(b"/t/a"), 6)), None);
    assert_eq!(decode_polled(&record(Some(&[0x2f, 0xff, 0xfe]), 1)), None);
    for (code, kind) in [
        (1u8, SystemEventType::Created),
        (2, SystemEventType::Modified),
        (3, SystemEventType::Deleted),
        (4, SystemEventType::Moved),
        (5, SystemEventType::MetadataChanged),
    ] {
        assert_eq!(SystemEventType::from_code(code), Some(kind));
        assert_eq!(kind.code(), code);
    }
    assert_eq!(SystemEventType::from_code(0), None);
    assert_eq!(SystemEventType::MetadataChanged.name(), "metadata_changed");
    assert_eq!(SystemEventType::Created.name(), "created");
}

#[test]
fn poll_filters_and_counts() {
    let mut w = watcher(open_filter(100));
    let polled = vec![
        record(Some(b"/t/a"), 1),
        record(Some(b"/t/a"), 2),
        record(None, 1),
        record(Some(b"/t/b"), 9),
        record(Some(b"/t/b"), 4),
    ];
    let events = w.poll_events_at(&polled, 1000);
    assert_eq!(events.len(), 2);
    assert_eq!(events[0].path, b"/t/a".to_vec());
    assert_eq!(events[0].event_type, SystemEventType::Created);
    assert_eq!(events[1].path, b"/t/b".to_vec());
    assert_eq!(events[1].event_type, SystemEventType::Moved);
    assert_eq!(w.get_stats().total_events, 2);
    let events = w.poll_events_at(&polled, 1100);
    assert_eq!(events.len(), 2);
    assert_eq!(w.get_stats().total_events, 4);
    assert_eq!(w.poll_events_at(&polled, 1101).len(), 0);
    assert_eq!(w.poll_events(&vec![]).len(), 0);
    assert_eq!(w.get_stats().total_events, 4);
}

#[test]
fn stub_watcher() {
    let mut stub = SystemWatcher::stub();
    assert_eq!(
        stub.get_stats(),
        WatcherStats {
            pending_events: 0,
            buffer_capacity: 0,
            dropped_events: 0,
            total_events: 0,
            watched_directories: 0,
        }
    );
    assert_eq!(stub.poll_events_at(&vec![record(Some(b"/t/a"), 1)], 1).len(), 0);
    assert_eq!(stub.start(-1), Ok(()));
    // A stub takes any path and no status.
    assert_eq!(stub.watch_directory(vec![0, 1, 2], true, -1), Ok(()));
    assert_eq!(stub.watch_directory(b"/t".to_vec(), false, -1), Ok(()));
    assert_eq!(stub.watch_directory(b"/t".to_vec(), true, -1), Ok(()));
    assert_eq!(stub.get_stats().watched_directories, 2);
}

#[test]
fn native_watcher_checks_paths_and_status() {
    let mut w = SystemWatcher::new(true).unwrap();
    assert_eq!(w.watch_directory(b"/t".to_vec(), true, 0), Ok(()));
    assert_eq!(w.watch_directory(b"/u".to_vec(), true, 1), Err(WatcherError::WatchFailed));
    assert_eq!(w.watch_directory(b"/a\0b".to_vec(), true, 0), Err(WatcherError::InvalidPath));
    assert_eq!(w.watch_directory(vec![0xff], true, 0), Err(WatcherError::InvalidPath));
    assert_eq!(w.get_stats().watched_directories, 1);
    assert_eq!(w.start(0), Ok(()));
    assert_eq!(w.start(3), Err(WatcherError::StartFailed));
    assert!(SystemWatcher::check_native_path(b"/ok"));
    assert!(!SystemWatcher::check_native_path(b"/no\0"));
}

#[test]
fn path_helpers() {
    assert!(under(b"/t", b"/t/a.txt"));
    assert!(under(b"/t", b"/t/sub/b.txt"));
    assert!(!under(b"/t", b"/ta"));
    assert!(!under(b"/t", b"/t"));
    assert!(!under(b"/t", b"/"));
    assert!(under(b"", b"/a"));
    assert!(within(b"/t", b"/t"));
    assert!(within(b"/t", b"/t/x"));
    assert!(!within(b"/t", b"/tx"));
    assert_eq!(parent_of(b"/t/a.txt"), Some(b"/t".to_vec()));
    assert_eq!(parent_of(b"/t/sub/b.txt"), Some(b"/t/sub".to_vec()));
    assert_eq!(parent_of(b"/a"), Some(vec![]));
    assert_eq!(parent_of(b"a"), None);
    assert_eq!(parent_of(b""), None);
    assert_eq!(parent_of(b"a/"), Some(b"a".to_vec()));
    assert_eq!(depth_of(b"/t/a.txt"), 3);
    assert_eq!(depth_of(b"t/a.txt"), 2);
    assert_eq!(depth_of(b"/"), 1);
    assert_eq!(depth_of(b""), 0);
    assert_eq!(depth_of(b"a//b/"), 2);
    assert!(bytes_eq(b"abc", b"abc"));
    assert!(!bytes_eq(b"abc", b"abd"));
    assert!(!bytes_eq(b"abc", b"ab"));
}
