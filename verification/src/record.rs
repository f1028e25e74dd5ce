//! The fixed-size record that carries one event through the ring, and its
//! byte layout.
//!
//! | offset | field          | width |
//! |-------:|----------------|------:|
//! |      0 | `timestamp`    |     8 |
//! |      8 | `event_type`   |     4 |
//! |     12 | `path_len`     |     4 |
//! |     16 | `size`         |     8 |
//! |     24 | `is_directory` |     4 |
//! |     28 | `hash_present` |     4 |
//! |     32 | `hash_value`   |     8 |
//! |     40 | `path_data`    |   512 |
//!
//! All integers are little-endian.

use vstd::prelude::*;
use vstd::slice::slice_subrange;
use vstd::slice::slice_to_vec;
use crate::event::{
    EnhancedFileEvent, EnhancedFileEventView, SystemEvent, SystemEventType, SystemEventView,
};
use crate::hash::{recorded_size, saturate_size, HashResult};
use crate::wire::{
    get_u32, get_u64, le32, le64, lemma_le_fields, put_u32, put_u64, read32, read64, zeros,
};

verus! {

/// Bytes of one record.
pub const EVENT_SIZE: usize = 552;

/// Bytes of the path field of a record.
pub const PATH_CAPACITY: usize = 512;

/// The longest path a record carries; longer paths are cut to this length.
pub const MAX_PATH_LEN: usize = 511;

/// One event as it lies in a slot of the ring.
#[derive(Debug, Clone, PartialEq, Eq)]
pub struct SerializedFileEvent {
    pub timestamp: u64,
    /// 0 created, 1 modified, 2 deleted, 3 moved, 4 metadata changed.
    pub event_type: u32,
    /// Number of bytes of `path_data` that are the path; at most 511.
    pub path_len: u32,
    pub size: u64,
    pub is_directory: u32,
    pub hash_present: u32,
    pub hash_value: u64,
    /// The path, followed by zero bytes up to 512 bytes in all.
    pub path_data: Vec<u8>,
}

/// The mathematical value of a [`SerializedFileEvent`].
pub struct SerializedFileEventView {
    pub timestamp: u64,
    pub event_type: u32,
    pub path_len: u32,
    pub size: u64,
    pub is_directory: u32,
    pub hash_present: u32,
    pub hash_value: u64,
    pub path_data: Seq<u8>,
}

impl View for SerializedFileEvent {
    type V = SerializedFileEventView;

    open spec fn view(&self) -> SerializedFileEventView {
        SerializedFileEventView {
            timestamp: self.timestamp,
            event_type: self.event_type,
            path_len: self.path_len,
            size: self.size,
            is_directory: self.is_directory,
            hash_present: self.hash_present,
            hash_value: self.hash_value,
            path_data: self.path_data@,
        }
    }
}

/// The number a record holds for a kind of event: 0 to 4.
pub open spec fn kind_code(kind: SystemEventType) -> u32 {
    match kind {
        SystemEventType::Created => 0,
        SystemEventType::Modified => 1,
        SystemEventType::Deleted => 2,
        SystemEventType::Moved => 3,
        SystemEventType::MetadataChanged => 4,
    }
}

/// The kind of event a record's number stands for; a number outside 0 to 4
/// reads as modified.
pub open spec fn kind_of_code(code: u32) -> SystemEventType {
    if code == 0 {
        SystemEventType::Created
    } else if code == 2 {
        SystemEventType::Deleted
    } else if code == 3 {
        SystemEventType::Moved
    } else if code == 4 {
        SystemEventType::MetadataChanged
    } else {
        SystemEventType::Modified
    }
}

/// The first 511 bytes of a path, or all of it if it is shorter.
pub open spec fn truncated_path(path: Seq<u8>) -> Seq<u8> {
    if path.len() <= MAX_PATH_LEN {
        path
    } else {
        path.subrange(0, MAX_PATH_LEN as int)
    }
}

impl SerializedFileEventView {
    /// A record is well formed when its path field has 512 bytes of which at
    /// most 511 are the path.
    pub open spec fn wf(self) -> bool {
        &&& self.path_data.len() == PATH_CAPACITY
        &&& self.path_len <= MAX_PATH_LEN
    }

    /// The record that stands for an event.
    pub open spec fn of_event(e: EnhancedFileEventView) -> SerializedFileEventView {
        let path = truncated_path(e.system_event.path);
        SerializedFileEventView {
            timestamp: e.system_event.timestamp,
            event_type: kind_code(e.system_event.event_type),
            path_len: path.len() as u32,
            size: e.system_event.size,
            is_directory: if e.system_event.is_directory { 1 } else { 0 },
            hash_present: if e.hash is Some { 1 } else { 0 },
            hash_value: match e.hash {
                Some(h) => h.hash,
                None => 0,
            },
            path_data: path + zeros((PATH_CAPACITY - path.len()) as nat),
        }
    }

    /// The path a record carries: the first `path_len` bytes of the path
    /// field, or the whole field where it is shorter than that.
    pub open spec fn path(self) -> Seq<u8> {
        if self.path_len <= self.path_data.len() {
            self.path_data.subrange(0, self.path_len as int)
        } else {
            self.path_data
        }
    }

    /// The event a record stands for. The fingerprint's size is the event's
    /// size saturated at `u32::MAX`; no processing time is carried.
    pub open spec fn to_event(self) -> EnhancedFileEventView {
        EnhancedFileEventView {
            system_event: SystemEventView {
                path: self.path(),
                event_type: kind_of_code(self.event_type),
                timestamp: self.timestamp,
                size: self.size,
                is_directory: self.is_directory == 1,
            },
            hash: if self.hash_present == 1 {
                Some(
                    HashResult {
                        hash: self.hash_value,
                        size: recorded_size(self.size as nat),
                        is_incremental: false,
                    },
                )
            } else {
                None
            },
            processing_time_ns: 0,
        }
    }

    /// The 552 bytes of a record.
    pub open spec fn bytes(self) -> Seq<u8> {
        le64(self.timestamp) + le32(self.event_type) + le32(self.path_len) + le64(self.size)
            + le32(self.is_directory) + le32(self.hash_present) + le64(self.hash_value)
            + self.path_data
    }

    /// The record that 552 bytes hold. A path length above 511 reads as 511.
    pub open spec fn of_bytes(b: Seq<u8>) -> SerializedFileEventView {
        let raw_len = read32(b, 12);
        SerializedFileEventView {
            timestamp: read64(b, 0),
            event_type: read32(b, 8),
            path_len: if raw_len <= MAX_PATH_LEN {
                raw_len
            } else {
                MAX_PATH_LEN as u32
            },
            size: read64(b, 16),
            is_directory: read32(b, 24),
            hash_present: read32(b, 28),
            hash_value: read64(b, 32),
            path_data: b.subrange(40, EVENT_SIZE as int),
        }
    }
}

/// What an event is after a passage through a record: the path cut to 511
/// bytes, the fingerprint's size replaced by the event's size saturated at
/// `u32::MAX`, its incremental mark cleared, and the processing time zero.
pub open spec fn carried(e: EnhancedFileEventView) -> EnhancedFileEventView {
    EnhancedFileEventView {
        system_event: SystemEventView {
            path: truncated_path(e.system_event.path),
            event_type: e.system_event.event_type,
            timestamp: e.system_event.timestamp,
            size: e.system_event.size,
            is_directory: e.system_event.is_directory,
        },
        hash: match e.hash {
            Some(h) => Some(
                HashResult {
                    hash: h.hash,
                    size: recorded_size(e.system_event.size as nat),
                    is_incremental: false,
                },
            ),
            None => None,
        },
        processing_time_ns: 0,
    }
}

/// An event that is written to a record and read back is the same event but
/// for what [`carried`] names: a path of up to 511 bytes comes back whole, a
/// longer one comes back as its first 511 bytes.
pub proof fn lemma_record_round_trip(e: EnhancedFileEventView)
    ensures
        SerializedFileEventView::of_event(e).wf(),
        SerializedFileEventView::of_event(e).to_event() == carried(e),
        e.system_event.path.len() <= MAX_PATH_LEN ==> carried(e).system_event.path
            == e.system_event.path,
        e.system_event.path.len() > MAX_PATH_LEN ==> carried(e).system_event.path
            == e.system_event.path.subrange(0, MAX_PATH_LEN as int),
{
    let r = SerializedFileEventView::of_event(e);
    let path = truncated_path(e.system_event.path);
    assert(r.path() =~= path);
}

/// A well-formed record that is laid out in bytes and read back is the same
/// record, and its layout has 552 bytes.
pub proof fn lemma_record_bytes_round_trip(r: SerializedFileEventView)
    requires
        r.wf(),
    ensures
        r.bytes().len() == EVENT_SIZE,
        SerializedFileEventView::of_bytes(r.bytes()) == r,
{
    lemma_le_fields();
    let b = r.bytes();
    assert(b.subrange(0, 8) =~= le64(r.timestamp));
    assert(b.subrange(8, 12) =~= le32(r.event_type));
    assert(b.subrange(12, 16) =~= le32(r.path_len));
    assert(b.subrange(16, 24) =~= le64(r.size));
    assert(b.subrange(24, 28) =~= le32(r.is_directory));
    assert(b.subrange(28, 32) =~= le32(r.hash_present));
    assert(b.subrange(32, 40) =~= le64(r.hash_value));
    assert(b.subrange(40, EVENT_SIZE as int) =~= r.path_data);
}

impl SerializedFileEvent {
    /// Lays the record out in its 552 bytes.
    pub fn encode(&self) -> (bytes: Vec<u8>)
        requires
            self@.wf(),
        ensures
            bytes@ == self@.bytes(),
            bytes@.len() == EVENT_SIZE,
    {
        let mut out: Vec<u8> = Vec::new();
        put_u64(&mut out, self.timestamp);
        put_u32(&mut out, self.event_type);
        put_u32(&mut out, self.path_len);
        put_u64(&mut out, self.size);
        put_u32(&mut out, self.is_directory);
        put_u32(&mut out, self.hash_present);
        put_u64(&mut out, self.hash_value);
        let mut path = self.path_data.clone();
        out.append(&mut path);
        proof {
            lemma_le_fields();
            assert(out@ =~= self@.bytes());
        }
        out
    }

    /// Reads a record out of bytes. `None` when there are not exactly 552.
    pub fn decode(bytes: &[u8]) -> (record: Option<SerializedFileEvent>)
        ensures
            record is Some <==> bytes@.len() == EVENT_SIZE,
            record matches Some(r) ==> r@ == SerializedFileEventView::of_bytes(bytes@) && r@.wf(),
    {
        if bytes.len() != EVENT_SIZE {
            return None;
        }
        let raw_len = get_u32(bytes, 12);
        let path_len = if raw_len <= MAX_PATH_LEN as u32 {
            raw_len
        } else {
            MAX_PATH_LEN as u32
        };
        Some(
            SerializedFileEvent {
                timestamp: get_u64(bytes, 0),
                event_type: get_u32(bytes, 8),
                path_len,
                size: get_u64(bytes, 16),
                is_directory: get_u32(bytes, 24),
                hash_present: get_u32(bytes, 28),
                hash_value: get_u64(bytes, 32),
                path_data: slice_to_vec(slice_subrange(bytes, 40, EVENT_SIZE)),
            },
        )
    }
}

impl From<&EnhancedFileEvent> for SerializedFileEvent {
    /// Writes an event into a record. A path longer than 511 bytes is cut to
    /// its first 511 bytes.
    fn from(event: &EnhancedFileEvent) -> (record: SerializedFileEvent)
        ensures
            record@ == SerializedFileEventView::of_event(event@),
            record@.wf(),
    {
        let path_bytes = event.system_event.path.as_slice();
        let path_len = if path_bytes.len() <= MAX_PATH_LEN {
            path_bytes.len()
        } else {
            MAX_PATH_LEN
        };
        let mut path_data = slice_to_vec(slice_subrange(path_bytes, 0, path_len));
        let ghost path = path_data@;
        proof {
            assert(path =~= truncated_path(event.system_event.path@));
        }
        let mut i: usize = path_len;
        while i < PATH_CAPACITY
            invariant
                path_len <= i <= PATH_CAPACITY,
                path_data@.len() == i,
                path_data@ =~= path + zeros((i - path_len) as nat),
            decreases PATH_CAPACITY - i,
        {
            path_data.push(0u8);
            i = i + 1;
        }
        proof {
            assert(path_data@ =~= path + zeros((PATH_CAPACITY - path.len()) as nat));
        }
        let event_type = match event.system_event.event_type {
            SystemEventType::Created => 0u32,
            SystemEventType::Modified => 1u32,
            SystemEventType::Deleted => 2u32,
            SystemEventType::Moved => 3u32,
            SystemEventType::MetadataChanged => 4u32,
        };
        SerializedFileEvent {
            timestamp: event.system_event.timestamp,
            event_type,
            path_len: path_len as u32,
            size: event.system_event.size,
            is_directory: if event.system_event.is_directory {
                1
            } else {
                0
            },
            hash_present: if event.hash.is_some() {
                1
            } else {
                0
            },
            hash_value: match event.hash {
                Some(h) => h.hash,
                None => 0,
            },
            path_data,
        }
    }
}

/// The conversion is specified by the `ensures` of `from`, over views.
impl vstd::std_specs::convert::FromSpecImpl<&EnhancedFileEvent> for SerializedFileEvent {
    open spec fn obeys_from_spec() -> bool {
        false
    }

    open spec fn from_spec(event: &EnhancedFileEvent) -> SerializedFileEvent {
        arbitrary()
    }
}

impl From<&SerializedFileEvent> for EnhancedFileEvent {
    /// Reads the event out of a record. The fingerprint, if the record has
    /// one, gets the event's size saturated at `u32::MAX` as its size.
    fn from(record: &SerializedFileEvent) -> (event: EnhancedFileEvent)
        ensures
            event@ == record@.to_event(),
    {
        let data = record.path_data.as_slice();
        let path_len = if record.path_len as usize <= data.len() {
            record.path_len as usize
        } else {
            data.len()
        };
        let path = slice_to_vec(slice_subrange(data, 0, path_len));
        proof {
            assert(path@ =~= record@.path());
        }
        let event_type = match record.event_type {
            0 => SystemEventType::Created,
            1 => SystemEventType::Modified,
            2 => SystemEventType::Deleted,
            3 => SystemEventType::Moved,
            4 => SystemEventType::MetadataChanged,
            _ => SystemEventType::Modified,
        };
        let hash = if record.hash_present == 1 {
            Some(
                HashResult {
                    hash: record.hash_value,
                    size: saturate_size(record.size),
                    is_incremental: false,
                },
            )
        } else {
            None
        };
        EnhancedFileEvent {
            system_event: SystemEvent {
                path,
                event_type,
                timestamp: record.timestamp,
                size: record.size,
                is_directory: record.is_directory == 1,
            },
            hash,
            processing_time_ns: 0,
        }
    }
}

/// The conversion is specified by the `ensures` of `from`, over views.
impl vstd::std_specs::convert::FromSpecImpl<&SerializedFileEvent> for EnhancedFileEvent {
    open spec fn obeys_from_spec() -> bool {
        false
    }

    open spec fn from_spec(record: &SerializedFileEvent) -> EnhancedFileEvent {
        arbitrary()
    }
}

} // verus!
