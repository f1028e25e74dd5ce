use retrigger::consumer::{
    get_system_stats, is_daemon_available, IPCManager, RecvStep, ZeroCopyConsumer,
};
use retrigger::event::{EnhancedFileEvent, SystemEvent, SystemEventType};
use retrigger::hash::HashResult;
use retrigger::header::{RingHeader, HEADER_SIZE, MAGIC_NUMBER, VERSION};
use retrigger::record::{SerializedFileEvent, EVENT_SIZE, MAX_PATH_LEN, PATH_CAPACITY};
use retrigger::ring::{OpenStep, RingError, WaitStep, ZeroCopyConfig, ZeroCopyRing};

fn config(capacity: usize) -> ZeroCopyConfig {
    ZeroCopyConfig {
        memory_size: 1024 * 1024,
        ring_capacity: capacity,
        shared_path: "/tmp/ring-under-test.mmap".to_string(),
        enable_notifications: false,
        consumer_timeout_ms: 100,
    }
}

fn event(path: &[u8], kind: SystemEventType, timestamp: u64) -> EnhancedFileEvent {
    EnhancedFileEvent {
        system_event: SystemEvent {
            path: path.to_vec(),
            event_type: kind,
            timestamp,
            size: 1024,
            is_directory: false,
        },
        hash: Some(HashResult { hash: 0xDEADBEEF, size: 1024, is_incremental: false }),
        processing_time_ns: 0,
    }
}

/// Lets the consumer see what the producer wrote, as a mapping of the same
/// region would.
fn sync(from: &ZeroCopyRing, to: &mut ZeroCopyRing, slot: usize) {
    assert!(to.load_slot(slot, &from.slot_bytes(slot).unwrap()));
    let mut header = from.header_snapshot();
    header.consumer_pid = to.header_snapshot().consumer_pid;
    header.read_pos = to.header_snapshot().read_pos;
    header.last_read_timestamp = to.header_snapshot().last_read_timestamp;
    header.avg_latency_ns = to.header_snapshot().avg_latency_ns;
    assert_eq!(to.load_header(&header.to_bytes()), Ok(()));
}

#[test]
fn test_zero_copy_ring_basic() {
    let config = config(1000);

    let mut producer = ZeroCopyRing::create_producer(config.clone(), 11, None).unwrap();
    let mut consumer =
        ZeroCopyRing::create_consumer(config, &producer.region_bytes(), 22, None).unwrap();

    let stats = producer.stats();
    assert_eq!(stats.capacity, 1000);
    assert_eq!(stats.used, 0);
    assert_eq!(stats.used as f64 / stats.capacity as f64 * 100.0, 0.0);

    let test_event = event(b"/test/file.txt", SystemEventType::Modified, 123456789);

    assert!(producer.push(&test_event));

    let stats = producer.stats();
    assert_eq!(stats.used, 1);
    assert!(stats.used as f64 / stats.capacity as f64 * 100.0 > 0.0);

    sync(&producer, &mut consumer, 0);
    let received = consumer.pop().unwrap();
    assert_eq!(received.system_event.path, test_event.system_event.path);
    assert_eq!(received.system_event.event_type, test_event.system_event.event_type);

    let stats = consumer.stats();
    assert_eq!(stats.used, 0);
}

#[test]
fn test_ipc_manager() {
    let mut manager = IPCManager::new(config(1000));
    assert_eq!(manager.start_producer(500, None), Ok(()));
    let region = ZeroCopyRing::create_producer(config(1000), 500, None).unwrap().region_bytes();
    assert_eq!(manager.connect_consumer(&region, 501, None), Ok(()));
    let stats = manager.get_stats();
    assert!(stats.producer_stats.is_some());
    assert_eq!(stats.consumer_stats.len(), 1);
    assert_eq!(stats.total_consumers, 1);
    assert_eq!(stats.producer_stats.unwrap().producer_pid, 500);
    assert_eq!(stats.consumer_stats[0].consumer_pid, 501);
    assert_eq!(manager.connect_consumer(&[0u8; 10], 502, None), Err(RingError::MapFailed));
    assert_eq!(manager.get_stats().total_consumers, 1);
}

#[test]
fn test_consumer_basic() {
    let producer = ZeroCopyRing::create_producer(config(1000), 1, None).unwrap();
    let result = ZeroCopyConsumer::connect_with_config(config(1000), &producer.region_bytes(), 2, None);
    println!("Consumer connection result: {:?}", result.is_ok());
    assert!(result.is_ok());
}

#[test]
fn test_api_connectivity_check() {
    let available = is_daemon_available(&[]);
    println!("Daemon available: {}", available);
    assert!(!available);
    let producer = ZeroCopyRing::create_producer(config(8), 1, None).unwrap();
    assert!(is_daemon_available(&producer.region_bytes()));
    let stats = get_system_stats(&producer.region_bytes()).unwrap();
    assert!(stats.is_connected);
    assert_eq!(stats.ring_stats.capacity, 8);
    assert_eq!(get_system_stats(&[1, 2, 3]), Err(RingError::MapFailed));
}

#[test]
fn drop_on_full_with_four_slots() {
    // Of four slots three can be in use: the fourth write finds the ring full.
    let mut ring = ZeroCopyRing::create_producer(config(4), 1, None).unwrap();
    assert!(ring.push_at(&event(b"/a", SystemEventType::Created, 1), 10));
    assert!(ring.push_at(&event(b"/b", SystemEventType::Created, 2), 20));
    assert!(ring.push_at(&event(b"/c", SystemEventType::Created, 3), 30));
    assert!(!ring.push_at(&event(b"/d", SystemEventType::Created, 4), 40));
    assert!(!ring.push_at(&event(b"/e", SystemEventType::Created, 5), 50));
    let stats = ring.stats();
    assert_eq!(stats.used, 3);
    assert_eq!(stats.total_events, 3);
    assert_eq!(stats.dropped_events, 2);
    assert_eq!(ring.header_snapshot().last_write_timestamp, 30);
    assert_eq!(ring.header_snapshot().write_pos, 3);
    assert_eq!(stats.max_utilization, 75);
}

#[test]
fn drop_on_full_after_four_writes() {
    // Five slots take four events; the fifth is dropped.
    let mut ring = ZeroCopyRing::create_producer(config(5), 1, None).unwrap();
    for i in 0..3u64 {
        assert!(ring.push_at(&event(b"/x", SystemEventType::Modified, i), i));
    }
    // capacity - 2 slots are used: the next write succeeds,
    assert_eq!(ring.stats().used, 3);
    assert!(ring.push_at(&event(b"/x", SystemEventType::Modified, 3), 3));
    // capacity - 1 slots are used: the one after it is dropped.
    assert_eq!(ring.stats().used, 4);
    assert_eq!(ring.stats().dropped_events, 0);
    assert!(!ring.push_at(&event(b"/x", SystemEventType::Modified, 4), 4));
    let stats = ring.stats();
    assert_eq!(stats.dropped_events, 1);
    assert_eq!(stats.total_events, 4);
    assert_eq!(stats.used, 4);
}

#[test]
fn accounting_over_a_mixed_run() {
    let mut producer = ZeroCopyRing::create_producer(config(4), 1, None).unwrap();
    let mut consumer =
        ZeroCopyRing::create_consumer(config(4), &producer.region_bytes(), 2, None).unwrap();
    let mut attempts = 0u64;
    let mut popped = 0u64;
    for round in 0..20u64 {
        for k in 0..(round % 4) {
            let slot = producer.header_snapshot().write_pos as usize;
            attempts += 1;
            if producer.push_at(&event(b"/p", SystemEventType::Created, round), round + k) {
                sync(&producer, &mut consumer, slot);
            }
        }
        for _ in 0..(round % 3) {
            if consumer.pop_at(round + 100).is_some() {
                popped += 1;
            }
            let mut header = producer.header_snapshot();
            header.read_pos = consumer.header_snapshot().read_pos;
            assert_eq!(producer.load_header(&header.to_bytes()), Ok(()));
        }
        let stats = producer.stats();
        assert!(stats.used <= 3);
        assert_eq!(attempts - stats.dropped_events - stats.used as u64, popped);
        assert_eq!(stats.total_events, attempts - stats.dropped_events);
    }
    assert!(popped > 0);
}

#[test]
fn events_come_out_in_order() {
    let mut producer = ZeroCopyRing::create_producer(config(8), 1, None).unwrap();
    for i in 0..5u64 {
        assert!(producer.push_at(
            &event(format!("/t/{i}").as_bytes(), SystemEventType::Created, i),
            i
        ));
    }
    let mut consumer =
        ZeroCopyRing::create_consumer(config(8), &producer.region_bytes(), 2, None).unwrap();
    for i in 0..5u64 {
        let e = consumer.pop_at(100).unwrap();
        assert_eq!(e.system_event.path, format!("/t/{i}").into_bytes());
        assert_eq!(e.system_event.timestamp, i);
    }
    assert!(consumer.pop_at(100).is_none());
    assert_eq!(consumer.header_snapshot().read_pos, 5);
    assert_eq!(consumer.header_snapshot().last_read_timestamp, 100);
}

#[test]
fn positions_wrap_around() {
    let mut producer = ZeroCopyRing::create_producer(config(3), 1, None).unwrap();
    let mut consumer =
        ZeroCopyRing::create_consumer(config(3), &producer.region_bytes(), 2, None).unwrap();
    for i in 0..10u64 {
        let slot = producer.header_snapshot().write_pos as usize;
        assert_eq!(slot as u64, i % 3);
        assert!(producer.push_at(&event(b"/w", SystemEventType::Moved, i), i));
        sync(&producer, &mut consumer, slot);
        let got = consumer.pop_at(i).unwrap();
        assert_eq!(got.system_event.timestamp, i);
        assert_eq!(got.system_event.event_type, SystemEventType::Moved);
        let mut header = producer.header_snapshot();
        header.read_pos = consumer.header_snapshot().read_pos;
        assert_eq!(producer.load_header(&header.to_bytes()), Ok(()));
    }
    assert_eq!(producer.stats().total_events, 10);
    assert_eq!(producer.stats().dropped_events, 0);
}

#[test]
fn roles_are_pinned() {
    let mut producer = ZeroCopyRing::create_producer(config(4), 1, None).unwrap();
    assert!(producer.push_at(&event(b"/a", SystemEventType::Created, 1), 1));
    assert!(producer.is_producer());
    assert!(producer.pop_at(5).is_none());
    assert!(producer.pop().is_none());
    assert_eq!(producer.stats().used, 1);
    let mut consumer =
        ZeroCopyRing::create_consumer(config(4), &producer.region_bytes(), 2, None).unwrap();
    assert!(!consumer.is_producer());
    let before = consumer.header_snapshot();
    assert!(!consumer.push_at(&event(b"/b", SystemEventType::Created, 2), 2));
    assert!(!consumer.push(&event(b"/b", SystemEventType::Created, 2)));
    assert_eq!(consumer.header_snapshot(), before);
    assert_eq!(consumer.stats().dropped_events, 0);
}

#[test]
fn header_is_bit_exact_on_attach() {
    let producer = ZeroCopyRing::create_producer(config(1024), 4242, None).unwrap();
    let region = producer.region_bytes();
    assert_eq!(region.len(), HEADER_SIZE + 1024 * EVENT_SIZE);
    // "RTRG" as a little-endian number, then version 1.
    assert_eq!(&region[0..8], &[0x47, 0x52, 0x54, 0x52, 1, 0, 0, 0]);
    // capacity at 16, slot size at 20, producer at 56.
    assert_eq!(&region[16..20], &1024u32.to_le_bytes());
    assert_eq!(&region[20..24], &552u32.to_le_bytes());
    assert_eq!(&region[56..60], &4242u32.to_le_bytes());
    let consumer = ZeroCopyRing::create_consumer(config(1024), &region, 77, None).unwrap();
    let header = consumer.header_snapshot();
    assert_eq!(header.magic, 0x52545247);
    assert_eq!(header.version, 1);
    assert_eq!(header.capacity, 1024);
    assert_eq!(header.event_size, 552);
    assert_eq!(header.producer_pid, 4242);
    assert_eq!(header.consumer_pid, 77);
    assert!(header.is_valid());
}

#[test]
fn header_layout_and_round_trip() {
    assert_eq!(MAGIC_NUMBER, 0x52545247);
    assert_eq!(VERSION, 1);
    assert_eq!(HEADER_SIZE, 80);
    let header = RingHeader {
        magic: MAGIC_NUMBER,
        version: VERSION,
        write_pos: 3,
        read_pos: 2,
        capacity: 9,
        event_size: 552,
        total_events: 0x0102030405060708,
        dropped_events: 5,
        last_write_timestamp: 6,
        last_read_timestamp: 7,
        producer_pid: 8,
        consumer_pid: 9,
        shutdown_flag: 1,
        max_utilization: 50,
        avg_latency_ns: 0xAABBCCDDEEFF0011,
    };
    let bytes = header.to_bytes();
    assert_eq!(bytes.len(), 80);
    assert_eq!(&bytes[8..12], &[3, 0, 0, 0]);
    assert_eq!(&bytes[12..16], &[2, 0, 0, 0]);
    assert_eq!(&bytes[24..32], &[8, 7, 6, 5, 4, 3, 2, 1]);
    assert_eq!(&bytes[32..40], &5u64.to_le_bytes());
    assert_eq!(&bytes[40..48], &6u64.to_le_bytes());
    assert_eq!(&bytes[48..56], &7u64.to_le_bytes());
    assert_eq!(&bytes[60..64], &9u32.to_le_bytes());
    assert_eq!(&bytes[64..68], &1u32.to_le_bytes());
    assert_eq!(&bytes[68..72], &50u32.to_le_bytes());
    assert_eq!(&bytes[72..80], &0xAABBCCDDEEFF0011u64.to_le_bytes());
    assert_eq!(RingHeader::from_bytes(&bytes), Some(header));
    let mut longer = bytes.clone();
    longer.extend_from_slice(&[9, 9, 9]);
    assert_eq!(RingHeader::from_bytes(&longer), Some(header));
    assert_eq!(RingHeader::from_bytes(&bytes[..79]), None);
    let fresh = RingHeader::new(16, 552);
    assert!(fresh.is_valid());
    assert_eq!(fresh.write_pos, 0);
    assert_eq!(fresh.read_pos, 0);
    assert_eq!(fresh.total_events, 0);
    let mut wrong = fresh;
    wrong.version = 2;
    assert!(!wrong.is_valid());
    wrong.version = 1;
    wrong.magic = 0x52545248;
    assert!(!wrong.is_valid());
}

#[test]
fn header_steps() {
    assert_eq!(RingHeader::next_pos(0, 4), 1);
    assert_eq!(RingHeader::next_pos(3, 4), 0);
    assert_eq!(RingHeader::next_pos(0, 1), 0);
    let mut h = RingHeader::new(4, 552);
    assert_eq!(h.peek(), None);
    let (next, slot) = h.plan_push(99);
    assert_eq!(slot, Some(0));
    assert_eq!(next.write_pos, 1);
    assert_eq!(next.total_events, 1);
    assert_eq!(next.last_write_timestamp, 99);
    assert_eq!(next.max_utilization, 25);
    h = next;
    assert_eq!(h.unread(), 1);
    assert_eq!(h.peek(), Some(0));
    // The first sample is taken as it is, the second is averaged in.
    let popped = h.plan_pop(1000, 400);
    assert_eq!(popped.avg_latency_ns, 600);
    assert_eq!(popped.read_pos, 1);
    assert_eq!(popped.last_read_timestamp, 1000);
    let mut again = popped;
    again.write_pos = 2;
    let popped = again.plan_pop(2000, 1900);
    assert_eq!(popped.avg_latency_ns, (600 + 100) / 2);
    // An event from the future has no latency.
    again.avg_latency_ns = 0;
    assert_eq!(again.plan_pop(5, 10).avg_latency_ns, 0);
    // Wrapped positions.
    let wrapped = RingHeader { write_pos: 1, read_pos: 3, ..RingHeader::new(4, 552) };
    assert_eq!(wrapped.unread(), 2);
    let full = RingHeader { write_pos: 2, read_pos: 3, dropped_events: u64::MAX, ..RingHeader::new(4, 552) };
    let (next, slot) = full.plan_push(1);
    assert_eq!(slot, None);
    assert_eq!(next.dropped_events, 0);
    assert_eq!(next.write_pos, 2);
    assert_eq!(full.plan_pop(1, 1).read_pos, 0);
}

#[test]
fn attach_refuses_bad_regions() {
    let producer = ZeroCopyRing::create_producer(config(4), 1, None).unwrap();
    let region = producer.region_bytes();
    assert!(matches!(
        ZeroCopyRing::create_consumer(config(4), &region[..79], 2, None),
        Err(RingError::MapFailed)
    ));
    let mut bad_magic = region.clone();
    bad_magic[0] = 0;
    assert!(matches!(
        ZeroCopyRing::create_consumer(config(4), &bad_magic, 2, None),
        Err(RingError::HeaderInvalid)
    ));
    let mut bad_version = region.clone();
    bad_version[4] = 2;
    assert!(matches!(
        ZeroCopyRing::create_consumer(config(4), &bad_version, 2, None),
        Err(RingError::HeaderInvalid)
    ));
    // A header that promises more slots than the region holds.
    assert!(matches!(
        ZeroCopyRing::create_consumer(config(4), &region[..region.len() - 1], 2, None),
        Err(RingError::HeaderInvalid)
    ));
    let mut bad_pos = region.clone();
    bad_pos[8] = 4;
    assert!(matches!(
        ZeroCopyRing::create_consumer(config(4), &bad_pos, 2, None),
        Err(RingError::HeaderInvalid)
    ));
    assert!(ZeroCopyRing::create_consumer(config(4), &region, 2, None).is_ok());
}

#[test]
fn producer_needs_room() {
    let mut small = config(1000);
    small.memory_size = HEADER_SIZE + 1000 * EVENT_SIZE - 1;
    assert!(matches!(
        ZeroCopyRing::create_producer(small.clone(), 1, None),
        Err(RingError::MapFailed)
    ));
    assert!(!small.check_fits());
    small.memory_size += 1;
    assert!(small.check_fits());
    assert!(ZeroCopyRing::create_producer(small, 1, None).is_ok());
    assert!(matches!(
        ZeroCopyRing::create_producer(config(0), 1, None),
        Err(RingError::MapFailed)
    ));
    let one = ZeroCopyRing::create_producer(config(1), 1, None);
    assert!(one.is_ok());
    let mut one = one.unwrap();
    // A ring of one slot is always full.
    assert!(!one.push_at(&event(b"/a", SystemEventType::Created, 1), 1));
    assert_eq!(one.stats().dropped_events, 1);
}

#[test]
fn default_ring_configuration() {
    let config = ZeroCopyConfig::default();
    assert_eq!(config.memory_size, 64 * 1024 * 1024);
    assert_eq!(config.ring_capacity, 100_000);
    assert_eq!(config.shared_path, "/tmp/retrigger-ipc.mmap");
    assert!(config.enable_notifications);
    assert_eq!(config.consumer_timeout_ms, 1000);
    assert!(config.check_fits());
    assert_eq!(config.duplicate(), config);
}

#[test]
fn record_keeps_paths_up_to_511_bytes() {
    let exact: Vec<u8> = (0..511u32).map(|i| b'a' + (i % 26) as u8).collect();
    let e = event(&exact, SystemEventType::Created, 7);
    let record = SerializedFileEvent::from(&e);
    assert_eq!(record.path_len, 511);
    assert_eq!(record.path_data.len(), PATH_CAPACITY);
    assert_eq!(record.path_data[511], 0);
    assert_eq!(EnhancedFileEvent::from(&record).system_event.path, exact);

    let mut longer = exact.clone();
    longer.push(b'Z');
    assert_eq!(longer.len(), 512);
    let record = SerializedFileEvent::from(&event(&longer, SystemEventType::Created, 7));
    assert_eq!(record.path_len as usize, MAX_PATH_LEN);
    assert_eq!(EnhancedFileEvent::from(&record).system_event.path, exact);

    let long: Vec<u8> = vec![b'x'; 5000];
    let record = SerializedFileEvent::from(&event(&long, SystemEventType::Created, 7));
    assert_eq!(EnhancedFileEvent::from(&record).system_event.path, vec![b'x'; 511]);
}

#[test]
fn record_round_trip_of_every_field() {
    for (kind, code) in [
        (SystemEventType::Created, 0u32),
        (SystemEventType::Modified, 1),
        (SystemEventType::Deleted, 2),
        (SystemEventType::Moved, 3),
        (SystemEventType::MetadataChanged, 4),
    ] {
        let e = EnhancedFileEvent {
            system_event: SystemEvent {
                path: b"/t/sub/b.txt".to_vec(),
                event_type: kind,
                timestamp: 0x1122334455667788,
                size: 4096,
                is_directory: code % 2 == 0,
            },
            hash: Some(HashResult { hash: 0xCAFEBABE12345678, size: 4096, is_incremental: false }),
            processing_time_ns: 0,
        };
        let record = SerializedFileEvent::from(&e);
        assert_eq!(record.event_type, code);
        assert_eq!(record.hash_present, 1);
        assert_eq!(record.is_directory, if code % 2 == 0 { 1 } else { 0 });
        let bytes = record.encode();
        assert_eq!(bytes.len(), EVENT_SIZE);
        assert_eq!(&bytes[0..8], &0x1122334455667788u64.to_le_bytes());
        assert_eq!(&bytes[8..12], &code.to_le_bytes());
        assert_eq!(&bytes[12..16], &12u32.to_le_bytes());
        assert_eq!(&bytes[16..24], &4096u64.to_le_bytes());
        assert_eq!(&bytes[32..40], &0xCAFEBABE12345678u64.to_le_bytes());
        assert_eq!(&bytes[40..52], b"/t/sub/b.txt");
        let back = SerializedFileEvent::decode(&bytes).unwrap();
        assert_eq!(back, record);
        assert_eq!(EnhancedFileEvent::from(&back), e);
    }
    assert!(SerializedFileEvent::decode(&[0u8; 551]).is_none());
    assert!(SerializedFileEvent::decode(&[0u8; 553]).is_none());
}

#[test]
fn record_drops_what_it_cannot_carry() {
    let e = EnhancedFileEvent {
        system_event: SystemEvent {
            path: b"/big".to_vec(),
            event_type: SystemEventType::Modified,
            timestamp: 1,
            size: 5_000_000_000,
            is_directory: false,
        },
        hash: Some(HashResult { hash: 9, size: 123, is_incremental: true }),
        processing_time_ns: 777,
    };
    let back = EnhancedFileEvent::from(&SerializedFileEvent::from(&e));
    assert_eq!(back.system_event, e.system_event);
    assert_eq!(back.processing_time_ns, 0);
    // The fingerprint comes back with the event's size, saturated.
    assert_eq!(back.hash, Some(HashResult { hash: 9, size: u32::MAX, is_incremental: false }));
    let none = EnhancedFileEvent { hash: None, ..e };
    let record = SerializedFileEvent::from(&none);
    assert_eq!(record.hash_present, 0);
    assert_eq!(record.hash_value, 0);
    assert_eq!(EnhancedFileEvent::from(&record).hash, None);
    // An unknown kind reads as modified, a path length beyond the field as 511.
    let mut bytes = record.encode();
    bytes[8] = 9;
    bytes[12] = 0xff;
    bytes[13] = 0xff;
    let odd = SerializedFileEvent::decode(&bytes).unwrap();
    assert_eq!(odd.path_len, 511);
    assert_eq!(EnhancedFileEvent::from(&odd).system_event.event_type, SystemEventType::Modified);
}

#[test]
fn shutdown_flag_and_notifier() {
    let mut with = config(4);
    with.enable_notifications = true;
    let mut ring = ZeroCopyRing::create_producer(with.clone(), 1, Some(9)).unwrap();
    assert_eq!(ring.get_event_fd(), Some(9));
    assert_eq!(ring.get_mmap_path(), "/tmp/ring-under-test.mmap");
    assert!(!ring.is_shutdown());
    ring.shutdown();
    assert!(ring.is_shutdown());
    assert_eq!(ring.header_snapshot().shutdown_flag, 1);
    let consumer = ZeroCopyRing::create_consumer(with, &ring.region_bytes(), 2, None).unwrap();
    assert!(consumer.is_shutdown());
    assert_eq!(consumer.get_event_fd(), None);
    let without = ZeroCopyRing::create_producer(config(4), 1, Some(9)).unwrap();
    assert_eq!(without.get_event_fd(), None);
}

#[test]
fn waiting_steps() {
    let mut producer = ZeroCopyRing::create_producer(config(4), 1, None).unwrap();
    assert_eq!(producer.wait_for_events(100, 0), WaitStep::TimedOut);
    let consumer = ZeroCopyRing::create_consumer(config(4), &producer.region_bytes(), 2, None).unwrap();
    assert_eq!(consumer.wait_for_events(100, 0), WaitStep::Sleep { sleep_ms: 1 });
    assert_eq!(consumer.wait_for_events(100, 99), WaitStep::Sleep { sleep_ms: 1 });
    assert_eq!(consumer.wait_for_events(100, 100), WaitStep::TimedOut);
    let mut notified = config(4);
    notified.enable_notifications = true;
    let waiter =
        ZeroCopyRing::create_consumer(notified, &producer.region_bytes(), 2, Some(5)).unwrap();
    assert_eq!(waiter.wait_for_events(100, 30), WaitStep::WaitOn { fd: 5, timeout_ms: 70 });
    assert!(producer.push_at(&event(b"/a", SystemEventType::Created, 1), 1));
    let ready = ZeroCopyRing::create_consumer(config(4), &producer.region_bytes(), 2, None).unwrap();
    assert_eq!(ready.wait_for_events(0, 0), WaitStep::Ready);
    assert_eq!(ZeroCopyRing::open_step(0), OpenStep::Retry { sleep_ms: 10 });
    assert_eq!(ZeroCopyRing::open_step(99), OpenStep::Retry { sleep_ms: 10 });
    assert_eq!(ZeroCopyRing::open_step(100), OpenStep::GiveUp);
}

#[test]
fn loading_checks_what_it_takes() {
    let mut ring = ZeroCopyRing::create_producer(config(4), 1, None).unwrap();
    assert_eq!(ring.load_header(&[0u8; 79]), Err(RingError::MapFailed));
    assert_eq!(ring.load_header(&[0u8; 80]), Err(RingError::HeaderInvalid));
    let other = RingHeader::new(5, 552);
    assert_eq!(ring.load_header(&other.to_bytes()), Err(RingError::HeaderInvalid));
    let mut same = ring.header_snapshot();
    same.read_pos = 4;
    assert_eq!(ring.load_header(&same.to_bytes()), Err(RingError::HeaderInvalid));
    same.read_pos = 3;
    assert_eq!(ring.load_header(&same.to_bytes()), Ok(()));
    assert_eq!(ring.header_snapshot().read_pos, 3);
    assert_eq!(ring.header_bytes(), same.to_bytes());
    assert!(!ring.load_slot(4, &[0u8; 552]));
    assert!(!ring.load_slot(0, &[0u8; 551]));
    assert!(ring.load_slot(3, &[0u8; 552]));
    assert!(ring.slot_bytes(4).is_none());
    assert_eq!(ring.slot_bytes(3).unwrap(), vec![0u8; 552]);
}

#[test]
fn consumer_reads_in_batches() {
    let mut producer = ZeroCopyRing::create_producer(config(300), 1, None).unwrap();
    for i in 0..250u64 {
        assert!(producer.push_at(&event(b"/n", SystemEventType::Created, i), i));
    }
    let mut consumer =
        ZeroCopyConsumer::connect_with_config(config(300), &producer.region_bytes(), 2, None)
            .unwrap();
    assert!(consumer.has_events());
    assert_eq!(consumer.stats().used, 250);
    let first = consumer.iter();
    assert_eq!(first.len(), 100);
    assert_eq!(first[0].system_event.timestamp, 0);
    assert_eq!(first[99].system_event.timestamp, 99);
    let second = consumer.iter_batch(120);
    assert_eq!(second.len(), 120);
    assert_eq!(second[0].system_event.timestamp, 100);
    assert_eq!(consumer.try_recv().unwrap().system_event.timestamp, 220);
    let rest = consumer.iter_batch(1000);
    assert_eq!(rest.len(), 29);
    assert!(!consumer.has_events());
    assert!(consumer.try_recv().is_none());
    assert_eq!(consumer.iter_batch(0).len(), 0);
    assert_eq!(consumer.recv_timeout(1000, 10), RecvStep::Sleep { sleep_us: 100 });
    assert_eq!(consumer.recv_timeout(1000, 1000), RecvStep::TimedOut);
    assert!(!consumer.ring_mut().is_producer());
}

#[test]
fn consumer_receives_while_waiting() {
    let mut producer = ZeroCopyRing::create_producer(config(4), 1, None).unwrap();
    assert!(producer.push_at(&event(b"/r", SystemEventType::Deleted, 5), 5));
    let mut consumer =
        ZeroCopyConsumer::connect_with_config(config(4), &producer.region_bytes(), 2, None).unwrap();
    match consumer.recv_timeout(1000, 2000) {
        RecvStep::Event(e) => assert_eq!(e.system_event.event_type, SystemEventType::Deleted),
        other => panic!("{:?}", other),
    }
    assert!(ZeroCopyConsumer::connect(&producer.region_bytes(), 3, None).is_ok());
    assert!(matches!(ZeroCopyConsumer::connect(&[], 3, None), Err(RingError::MapFailed)));
}

#[test]
fn consumer_stops_after_shutdown() {
    let mut producer = ZeroCopyRing::create_producer(config(4), 1, None).unwrap();
    assert!(producer.push_at(&event(b"/last", SystemEventType::Created, 1), 1));
    producer.shutdown();
    let mut consumer =
        ZeroCopyConsumer::connect_with_config(config(4), &producer.region_bytes(), 2, None).unwrap();
    // What was written before the shutdown is still read.
    assert!(matches!(consumer.recv_timeout(1000, 0), RecvStep::Event(_)));
    assert_eq!(consumer.recv_timeout(1000, 0), RecvStep::Shutdown);
    assert_eq!(consumer.recv_timeout(1000, 5000), RecvStep::Shutdown);
}
