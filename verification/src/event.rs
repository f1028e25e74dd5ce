//! File-system events as the source hands them over and as the enricher hands
//! them on.

use vstd::prelude::*;
use crate::hash::HashResult;

verus! {

/// What happened to a path.
#[derive(Debug, Clone, Copy, PartialEq, Eq, Structural)]
pub enum SystemEventType {
    Created,
    Modified,
    Deleted,
    Moved,
    MetadataChanged,
}

impl SystemEventType {
    /// The number the native watch layer uses for this kind: 1 to 5.
    pub open spec fn spec_code(self) -> u8 {
        match self {
            SystemEventType::Created => 1,
            SystemEventType::Modified => 2,
            SystemEventType::Deleted => 3,
            SystemEventType::Moved => 4,
            SystemEventType::MetadataChanged => 5,
        }
    }

    /// The kind for a number of the native watch layer, if it is one of 1 to 5.
    pub open spec fn spec_from_code(code: u8) -> Option<SystemEventType> {
        if code == 1 {
            Some(SystemEventType::Created)
        } else if code == 2 {
            Some(SystemEventType::Modified)
        } else if code == 3 {
            Some(SystemEventType::Deleted)
        } else if code == 4 {
            Some(SystemEventType::Moved)
        } else if code == 5 {
            Some(SystemEventType::MetadataChanged)
        } else {
            None
        }
    }

    /// The number the native watch layer uses for this kind.
    pub fn code(self) -> (c: u8)
        ensures
            c == self.spec_code(),
            SystemEventType::spec_from_code(c) == Some(self),
    {
        match self {
            SystemEventType::Created => 1,
            SystemEventType::Modified => 2,
            SystemEventType::Deleted => 3,
            SystemEventType::Moved => 4,
            SystemEventType::MetadataChanged => 5,
        }
    }

    /// Decodes a number of the native watch layer; `None` for any number
    /// outside 1 to 5.
    pub fn from_code(code: u8) -> (kind: Option<SystemEventType>)
        ensures
            kind == SystemEventType::spec_from_code(code),
            kind is Some <==> 1 <= code <= 5,
    {
        match code {
            1 => Some(SystemEventType::Created),
            2 => Some(SystemEventType::Modified),
            3 => Some(SystemEventType::Deleted),
            4 => Some(SystemEventType::Moved),
            5 => Some(SystemEventType::MetadataChanged),
            _ => None,
        }
    }

    /// The lower-case name of the kind, as consumers print it.
    pub fn name(self) -> (s: &'static str)
        ensures
            s@ == self.spec_name(),
    {
        match self {
            SystemEventType::Created => "created",
            SystemEventType::Modified => "modified",
            SystemEventType::Deleted => "deleted",
            SystemEventType::Moved => "moved",
            SystemEventType::MetadataChanged => "metadata_changed",
        }
    }

    /// The characters of [`SystemEventType::name`].
    pub open spec fn spec_name(self) -> Seq<char> {
        match self {
            SystemEventType::Created => "created"@,
            SystemEventType::Modified => "modified"@,
            SystemEventType::Deleted => "deleted"@,
            SystemEventType::Moved => "moved"@,
            SystemEventType::MetadataChanged => "metadata_changed"@,
        }
    }
}

/// A raw event of the file-system watcher.
#[derive(Debug, Clone, PartialEq, Eq)]
pub struct SystemEvent {
    /// The path the event is about, as bytes.
    pub path: Vec<u8>,
    pub event_type: SystemEventType,
    /// Nanoseconds since the Unix epoch.
    pub timestamp: u64,
    /// Size of the file in bytes.
    pub size: u64,
    pub is_directory: bool,
}

/// The mathematical value of a [`SystemEvent`].
pub struct SystemEventView {
    pub path: Seq<u8>,
    pub event_type: SystemEventType,
    pub timestamp: u64,
    pub size: u64,
    pub is_directory: bool,
}

impl View for SystemEvent {
    type V = SystemEventView;

    open spec fn view(&self) -> SystemEventView {
        SystemEventView {
            path: self.path@,
            event_type: self.event_type,
            timestamp: self.timestamp,
            size: self.size,
            is_directory: self.is_directory,
        }
    }
}

impl SystemEvent {
    /// A copy of the event.
    pub fn duplicate(&self) -> (copy: SystemEvent)
        ensures
            copy@ == self@,
    {
        SystemEvent {
            path: self.path.clone(),
            event_type: self.event_type,
            timestamp: self.timestamp,
            size: self.size,
            is_directory: self.is_directory,
        }
    }
}

/// A raw event together with the fingerprint of the file, if one was taken,
/// and the time the enrichment took.
#[derive(Debug, Clone, PartialEq, Eq)]
pub struct EnhancedFileEvent {
    pub system_event: SystemEvent,
    pub hash: Option<HashResult>,
    pub processing_time_ns: u64,
}

/// The mathematical value of an [`EnhancedFileEvent`].
pub struct EnhancedFileEventView {
    pub system_event: SystemEventView,
    pub hash: Option<HashResult>,
    pub processing_time_ns: u64,
}

impl View for EnhancedFileEvent {
    type V = EnhancedFileEventView;

    open spec fn view(&self) -> EnhancedFileEventView {
        EnhancedFileEventView {
            system_event: self.system_event@,
            hash: self.hash,
            processing_time_ns: self.processing_time_ns,
        }
    }
}

/// Counters of the file-system watcher.
#[derive(Debug, Clone, Copy, PartialEq, Eq, Structural)]
pub struct WatcherStats {
    pub pending_events: u32,
    pub buffer_capacity: u32,
    pub dropped_events: u64,
    pub total_events: u64,
    pub watched_directories: usize,
}

} // verus!
