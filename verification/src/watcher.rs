//! The watcher's side of the event source: which directories are watched,
//! which polled records become events, and which events are let through.
//!
//! The native watch layer itself is not part of this library. Its calls are
//! made by the caller, who hands their results over: the status of a call,
//! or the records that a poll returned.

use vstd::prelude::*;
use vstd::utf8::valid_utf8;
use dashmap::DashMap;
use crate::clock::{millis, unix_nanos};
use crate::event::{SystemEvent, SystemEventType, SystemEventView, WatcherStats};
use crate::filter::EventFilter;
use crate::glob::any_match;
use crate::path::is_utf8;
use crate::maps::{
    none_watched, no_stamps, stamps, stamps_get, stamps_insert, stamps_new, watched,
    watched_insert, watched_len, watched_new,
};

verus! {

/// The most records to take from the native layer in one poll.
pub const POLL_BATCH: usize = 10;

/// A record as the native watch layer returns it from a poll.
#[derive(Debug, Clone, PartialEq, Eq)]
pub struct FileEvent {
    /// The path's bytes; `None` where the native layer gave no path.
    pub path: Option<Vec<u8>>,
    /// The native layer's number for the kind of event: 1 to 5.
    pub event_type: u8,
    pub timestamp: u64,
    pub size: u64,
    pub is_directory: bool,
}

/// Why a call on the watcher failed.
#[derive(Debug, Clone, Copy, PartialEq, Eq, Structural)]
pub enum WatcherError {
    /// The native layer could not make a watcher.
    CreateFailed,
    /// The path holds a zero byte or is not UTF-8.
    InvalidPath,
    /// The native layer refused to watch the directory.
    WatchFailed,
    /// The native layer could not start.
    StartFailed,
}

/// The event that a polled record stands for: none if it has no path, if the
/// path is not UTF-8, or if the kind's number is not one of 1 to 5.
pub open spec fn polled_event(record: FileEvent) -> Option<SystemEventView> {
    match record.path {
        None => None,
        Some(path) => if !valid_utf8(path@) {
            None
        } else {
            match SystemEventType::spec_from_code(record.event_type) {
                None => None,
                Some(kind) => Some(
                    SystemEventView {
                        path: path@,
                        event_type: kind,
                        timestamp: record.timestamp,
                        size: record.size,
                        is_directory: record.is_directory,
                    },
                ),
            }
        },
    }
}

/// The event that a polled record stands for, if any.
pub fn decode_polled(record: &FileEvent) -> (event: Option<SystemEvent>)
    ensures
        event is Some <==> polled_event(*record) is Some,
        event matches Some(e) ==> Some(e@) == polled_event(*record),
{
    match &record.path {
        None => None,
        Some(path) => {
            if !is_utf8(path.as_slice()) {
                return None;
            }
            match SystemEventType::from_code(record.event_type) {
                None => None,
                Some(kind) => Some(
                    SystemEvent {
                        path: path.clone(),
                        event_type: kind,
                        timestamp: record.timestamp,
                        size: record.size,
                        is_directory: record.is_directory,
                    },
                ),
            }
        },
    }
}

/// The events let through from the polled records, in their order, all
/// arriving at `now_ms`, and the times kept afterwards.
pub open spec fn poll_run(
    filter: EventFilter,
    last: Map<Seq<u8>, u64>,
    polled: Seq<FileEvent>,
    now_ms: u64,
) -> (Seq<SystemEventView>, Map<Seq<u8>, u64>)
    decreases polled.len(),
{
    if polled.len() == 0 {
        (Seq::empty(), last)
    } else {
        let (events, kept) = poll_run(filter, last, polled.drop_last(), now_ms);
        match polled_event(polled.last()) {
            None => (events, kept),
            Some(e) => if filter.accepts(kept, e, now_ms) {
                (events.push(e), filter.remember(kept, e, now_ms))
            } else {
                (events, kept)
            },
        }
    }
}

/// The views of some events.
pub open spec fn event_views(events: Seq<SystemEvent>) -> Seq<SystemEventView> {
    Seq::new(events.len(), |i: int| events[i]@)
}

/// The watcher: the directories it watches, its filter with the times the
/// debounce keeps, and its counters.
pub struct SystemWatcher {
    native: bool,
    watched_paths: DashMap<Vec<u8>, bool>,
    stats: WatcherStats,
    event_filter: EventFilter,
    last_events: DashMap<Vec<u8>, u64>,
}

impl SystemWatcher {
    /// Whether the watcher stands alone, without a native layer.
    pub closed spec fn is_stub(&self) -> bool {
        !self.native
    }

    /// For each watched directory, whether it is watched with its
    /// subdirectories.
    pub closed spec fn watched_paths(&self) -> Map<Seq<u8>, bool> {
        watched(self.watched_paths)
    }

    /// The counters.
    pub closed spec fn stats(&self) -> WatcherStats {
        self.stats
    }

    /// The filter.
    pub closed spec fn filter(&self) -> EventFilter {
        self.event_filter
    }

    /// For each path, when its last event was let through, in milliseconds.
    pub closed spec fn last_events(&self) -> Map<Seq<u8>, u64> {
        stamps(self.last_events)
    }

    /// The set of watched directories is finite.
    pub closed spec fn wf(&self) -> bool {
        watched(self.watched_paths).dom().finite()
    }

    /// The counters of a watcher that has seen nothing.
    pub open spec fn fresh_stats() -> WatcherStats {
        WatcherStats {
            pending_events: 0,
            buffer_capacity: 0,
            dropped_events: 0,
            total_events: 0,
            watched_directories: 0,
        }
    }

    fn make(native: bool) -> (watcher: SystemWatcher)
        ensures
            watcher.wf(),
            watcher.is_stub() == !native,
            watcher.watched_paths() == none_watched(),
            watcher.last_events() == no_stamps(),
            watcher.stats() == SystemWatcher::fresh_stats(),
            watcher.filter().is_default(),
    {
        SystemWatcher {
            native,
            watched_paths: watched_new(),
            stats: WatcherStats {
                pending_events: 0,
                buffer_capacity: 0,
                dropped_events: 0,
                total_events: 0,
                watched_directories: 0,
            },
            event_filter: EventFilter::default(),
            last_events: stamps_new(),
        }
    }

    /// A watcher without a native layer: it records what it is asked to
    /// watch, and polls nothing. It has the default filter.
    pub fn stub() -> (watcher: SystemWatcher)
        ensures
            watcher.wf(),
            watcher.is_stub(),
            watcher.watched_paths() == none_watched(),
            watcher.last_events() == no_stamps(),
            watcher.stats() == SystemWatcher::fresh_stats(),
            watcher.filter().is_default(),
    {
        SystemWatcher::make(false)
    }

    /// A watcher on a native layer. `created` says whether the native layer
    /// made its watcher; if it did not, the result is `CreateFailed`.
    pub fn new(created: bool) -> (watcher: Result<SystemWatcher, WatcherError>)
        ensures
            watcher is Ok <==> created,
            watcher matches Err(e) ==> e == WatcherError::CreateFailed,
            watcher matches Ok(w) ==> {
                &&& w.wf()
                &&& !w.is_stub()
                &&& w.watched_paths() == none_watched()
                &&& w.last_events() == no_stamps()
                &&& w.stats() == SystemWatcher::fresh_stats()
                &&& w.filter().is_default()
            },
    {
        if created {
            Ok(SystemWatcher::make(true))
        } else {
            Err(WatcherError::CreateFailed)
        }
    }

    /// Whether a path can be handed to the native layer: it is UTF-8 and
    /// holds no zero byte.
    pub open spec fn native_path(path: Seq<u8>) -> bool {
        valid_utf8(path) && forall|i: int| 0 <= i < path.len() ==> path[i] != 0
    }

    /// Whether a path can be handed to the native layer.
    pub fn check_native_path(path: &[u8]) -> (ok: bool)
        ensures
            ok == SystemWatcher::native_path(path@),
    {
        if !is_utf8(path) {
            return false;
        }
        let mut i: usize = 0;
        while i < path.len()
            invariant
                i <= path@.len(),
                forall|k: int| 0 <= k < i ==> path@[k] != 0,
            decreases path@.len() - i,
        {
            if path[i] == 0 {
                return false;
            }
            i = i + 1;
        }
        true
    }

    /// Records that a directory is watched. With a native layer the caller
    /// first checks the path with [`SystemWatcher::check_native_path`], asks
    /// the native layer to watch it and passes the status it returned (0 for
    /// success); a stub takes every path and needs no status.
    ///
    /// On success the directory is entered with its `recursive` mark, in
    /// place of an earlier entry for it, and the counter of watched
    /// directories is set to their number. On failure nothing changes.
    pub fn watch_directory(&mut self, path: Vec<u8>, recursive: bool, native_status: i32) -> (done:
        Result<(), WatcherError>)
        requires
            old(self).wf(),
        ensures
            final(self).wf(),
            final(self).is_stub() == old(self).is_stub(),
            final(self).filter() == old(self).filter(),
            final(self).last_events() == old(self).last_events(),
            done == if old(self).is_stub() {
                Ok::<(), WatcherError>(())
            } else if !SystemWatcher::native_path(path@) {
                Err::<(), WatcherError>(WatcherError::InvalidPath)
            } else if native_status != 0 {
                Err::<(), WatcherError>(WatcherError::WatchFailed)
            } else {
                Ok::<(), WatcherError>(())
            },
            done is Err ==> final(self).watched_paths() == old(self).watched_paths() && final(self).stats() == old(self).stats(),
            done is Ok ==> {
                &&& final(self).watched_paths() == old(self).watched_paths().insert(
                    path@,
                    recursive,
                )
                &&& final(self).stats() == (WatcherStats {
                    watched_directories: final(self).watched_paths().dom().len() as usize,
                    ..old(self).stats()
                })
                &&& final(self).watched_paths().dom().len() <= usize::MAX
            },
    {
        if self.native {
            if !SystemWatcher::check_native_path(path.as_slice()) {
                return Err(WatcherError::InvalidPath);
            }
            if native_status != 0 {
                return Err(WatcherError::WatchFailed);
            }
        }
        watched_insert(&mut self.watched_paths, path, recursive);
        self.stats.watched_directories = watched_len(&self.watched_paths);
        Ok(())
    }

    /// Whether the watcher is started: a stub always is, a native watcher
    /// when the native layer returned the status 0 from its start.
    pub fn start(&self, native_status: i32) -> (done: Result<(), WatcherError>)
        ensures
            done == if self.is_stub() || native_status == 0 {
                Ok::<(), WatcherError>(())
            } else {
                Err::<(), WatcherError>(WatcherError::StartFailed)
            },
    {
        if !self.native || native_status == 0 {
            Ok(())
        } else {
            Err(WatcherError::StartFailed)
        }
    }

    /// Replaces the filter. The times the debounce keeps stay.
    pub fn set_event_filter(&mut self, filter: EventFilter)
        requires
            old(self).wf(),
        ensures
            final(self).wf(),
            final(self).filter() == filter,
            final(self).is_stub() == old(self).is_stub(),
            final(self).last_events() == old(self).last_events(),
            final(self).watched_paths() == old(self).watched_paths(),
            final(self).stats() == old(self).stats(),
    {
        self.event_filter = filter;
    }

    /// The counters.
    pub fn get_stats(&self) -> (stats: WatcherStats)
        ensures
            stats == self.stats(),
    {
        self.stats
    }

    /// Whether an event that arrives at `now_ms` is let through. All of
    /// these must hold: its size is at least the least size; it is at most
    /// the greatest size, if there is one; no exclude pattern matches its
    /// path; an include pattern matches it, if there is any; and, with a
    /// debounce of `D > 0`, the last event of its path was let through at
    /// least `D` milliseconds before `now_ms`, or none was. If the event is
    /// let through and the debounce is on, `now_ms` is kept for its path.
    pub fn should_process_event_at(&mut self, event: &SystemEvent, now_ms: u64) -> (accepted: bool)
        requires
            old(self).wf(),
        ensures
            final(self).wf(),
            accepted == old(self).filter().accepts(old(self).last_events(), event@, now_ms),
            final(self).last_events() == old(self).filter().remember(
                old(self).last_events(),
                event@,
                now_ms,
            ),
            final(self).filter() == old(self).filter(),
            final(self).is_stub() == old(self).is_stub(),
            final(self).watched_paths() == old(self).watched_paths(),
            final(self).stats() == old(self).stats(),
    {
        if event.size < self.event_filter.min_file_size {
            return false;
        }
        if let Some(max_size) = self.event_filter.max_file_size {
            if event.size > max_size {
                return false;
            }
        }
        let path = event.path.as_slice();
        if any_match(&self.event_filter.exclude_patterns, path) {
            return false;
        }
        if self.event_filter.include_patterns.len() > 0 {
            if !any_match(&self.event_filter.include_patterns, path) {
                return false;
            }
        }
        if self.event_filter.debounce_ms > 0 {
            if let Some(last_time) = stamps_get(&self.last_events, path) {
                if now_ms < last_time || now_ms - last_time < self.event_filter.debounce_ms {
                    return false;
                }
            }
            stamps_insert(&mut self.last_events, event.path.clone(), now_ms);
        }
        true
    }

    /// Whether an event that arrives now is let through. It does what
    /// [`SystemWatcher::should_process_event_at`] does for some reading of
    /// the clock.
    pub fn should_process_event(&mut self, event: &SystemEvent) -> (accepted: bool)
        requires
            old(self).wf(),
        ensures
            final(self).wf(),
            exists|now_ms: u64|
                accepted == #[trigger] old(self).filter().accepts(
                    old(self).last_events(),
                    event@,
                    now_ms,
                ) && final(self).last_events() == old(self).filter().remember(
                    old(self).last_events(),
                    event@,
                    now_ms,
                ),
            !old(self).filter().passes(event@) ==> !accepted,
            old(self).filter().passes(event@) && old(self).filter().debounce_ms == 0 ==> accepted,
            final(self).filter() == old(self).filter(),
            final(self).is_stub() == old(self).is_stub(),
            final(self).watched_paths() == old(self).watched_paths(),
            final(self).stats() == old(self).stats(),
    {
        let now_ms = millis(unix_nanos());
        self.should_process_event_at(event, now_ms)
    }

    /// Turns the records of one poll, taken at `now_ms`, into events. A stub
    /// returns nothing and changes nothing. Otherwise each record that
    /// stands for an event is put to the filter in its order; the events let
    /// through are returned in that order, and their number is added to the
    /// counter of events (which wraps at `u64::MAX`).
    pub fn poll_events_at(&mut self, polled: &Vec<FileEvent>, now_ms: u64) -> (events: Vec<
        SystemEvent,
    >)
        requires
            old(self).wf(),
        ensures
            final(self).wf(),
            final(self).filter() == old(self).filter(),
            final(self).is_stub() == old(self).is_stub(),
            final(self).watched_paths() == old(self).watched_paths(),
            old(self).is_stub() ==> events@.len() == 0 && final(self).last_events() == old(self).last_events() && final(self).stats() == old(self).stats(),
            !old(self).is_stub() ==> {
                let run = poll_run(old(self).filter(), old(self).last_events(), polled@, now_ms);
                &&& event_views(events@) == run.0
                &&& final(self).last_events() == run.1
                &&& final(self).stats() == (WatcherStats {
                    total_events: ((old(self).stats().total_events + events@.len()) % 0x1_0000_0000_0000_0000) as u64,
                    ..old(self).stats()
                })
            },
    {
        let mut events: Vec<SystemEvent> = Vec::new();
        if !self.native {
            return events;
        }
        let mut i: usize = 0;
        while i < polled.len()
            invariant
                i <= polled@.len(),
                self.wf(),
                self.filter() == old(self).filter(),
                self.is_stub() == old(self).is_stub(),
                self.watched_paths() == old(self).watched_paths(),
                self.stats() == old(self).stats(),
                event_views(events@) == poll_run(
                    old(self).filter(),
                    old(self).last_events(),
                    polled@.take(i as int),
                    now_ms,
                ).0,
                self.last_events() == poll_run(
                    old(self).filter(),
                    old(self).last_events(),
                    polled@.take(i as int),
                    now_ms,
                ).1,
            decreases polled@.len() - i,
        {
            proof {
                assert(polled@.take(i + 1).drop_last() =~= polled@.take(i as int));
                assert(polled@.take(i + 1).last() == polled@[i as int]);
            }
            let ghost before = events@;
            match decode_polled(&polled[i]) {
                None => {},
                Some(event) => {
                    if self.should_process_event_at(&event, now_ms) {
                        events.push(event);
                        proof {
                            assert(event_views(events@) =~= event_views(before).push(event@));
                        }
                    }
                },
            }
            i = i + 1;
        }
        proof {
            assert(polled@.take(polled@.len() as int) =~= polled@);
        }
        let count: u64 = (events.len() as u64);
        self.stats.total_events = self.stats.total_events.wrapping_add(count);
        events
    }

    /// Turns the records of one poll into events, all stamped with one
    /// reading of the clock. It does what [`SystemWatcher::poll_events_at`]
    /// does for that reading.
    pub fn poll_events(&mut self, polled: &Vec<FileEvent>) -> (events: Vec<SystemEvent>)
        requires
            old(self).wf(),
        ensures
            final(self).wf(),
            final(self).filter() == old(self).filter(),
            final(self).is_stub() == old(self).is_stub(),
            final(self).watched_paths() == old(self).watched_paths(),
            old(self).is_stub() ==> events@.len() == 0 && final(self).last_events() == old(self).last_events() && final(self).stats() == old(self).stats(),
            !old(self).is_stub() ==> exists|now_ms: u64|
                {
                    let run = #[trigger] poll_run(
                        old(self).filter(),
                        old(self).last_events(),
                        polled@,
                        now_ms,
                    );
                    &&& event_views(events@) == run.0
                    &&& final(self).last_events() == run.1
                },
            !old(self).is_stub() ==> final(self).stats() == (WatcherStats {
                total_events: ((old(self).stats().total_events + events@.len())
                    % 0x1_0000_0000_0000_0000) as u64,
                ..old(self).stats()
            }),
    {
        let now_ms = millis(unix_nanos());
        self.poll_events_at(polled, now_ms)
    }
}

} // verus!
