use ziofa::events::{
    Duration, Event, EventContext, EventData, FileDescriptorOpKind, JniMethodName, LogEvent, LogEventData,
    Timestamp, WriteEventSource,
};
use ziofa::items::{event_from_aligned_item, event_from_item, ItemError};

const BOOT: u64 = 1_700_000_000;

/// An entry of `size` bytes in an eight-byte aligned buffer, with the kind
/// tag and the context filled in.
fn entry(size: usize, tag: u8) -> Vec<u64> {
    let mut words = vec![0u64; size / 8];
    let bytes: &mut [u8] = bytemuck::cast_slice_mut(&mut words);
    bytes[0] = tag;
    bytes[8..12].copy_from_slice(&7u32.to_le_bytes());
    bytes[12..16].copy_from_slice(&8u32.to_le_bytes());
    bytes[16..24].copy_from_slice(&3_000_000_005u64.to_le_bytes());
    words
}

fn put(words: &mut Vec<u64>, at: usize, data: &[u8]) {
    let bytes: &mut [u8] = bytemuck::cast_slice_mut(words);
    bytes[at..at + data.len()].copy_from_slice(data);
}

fn decode(words: &Vec<u64>) -> Result<Event, ItemError> {
    event_from_item(bytemuck::cast_slice(words), BOOT)
}

fn log(event: Event) -> LogEvent {
    match event.event_data {
        Some(EventData::Log(log)) => log,
        other => panic!("not a log event: {:?}", other),
    }
}

fn check_context(log: &LogEvent) {
    assert_eq!(
        log.context,
        Some(EventContext { pid: 7, tid: 8, timestamp: Some(Timestamp { seconds: BOOT as i64 + 3, nanos: 5 }) })
    );
}

#[test]
fn blocking_entries_become_blocking_events() {
    let mut e = entry(32, 1);
    put(&mut e, 24, &2_500_000_000u64.to_le_bytes());
    let log = log(decode(&e).unwrap());
    check_context(&log);
    match log.log_event_data {
        Some(LogEventData::Blocking(b)) => {
            assert_eq!(b.duration, Some(Duration { seconds: 2, nanos: 500_000_000 }))
        }
        other => panic!("{:?}", other),
    }
}

#[test]
fn signal_entries_keep_a_negative_target() {
    let mut e = entry(32, 2);
    put(&mut e, 24, &(-1i32).to_le_bytes());
    put(&mut e, 28, &3u32.to_le_bytes());
    match log(decode(&e).unwrap()).log_event_data {
        Some(LogEventData::Signal(s)) => assert_eq!((s.target_pid, s.signal), (-1, 3)),
        other => panic!("{:?}", other),
    }
}

#[test]
fn write_entries_carry_their_path() {
    let mut e = entry(4144, 0);
    put(&mut e, 24, &100u64.to_le_bytes());
    put(&mut e, 32, &5u64.to_le_bytes());
    put(&mut e, 40, b"/data/x\0rest");
    put(&mut e, 4136, &[2u8]);
    match log(decode(&e).unwrap()).log_event_data {
        Some(LogEventData::Write(w)) => {
            assert_eq!((w.bytes_written, w.file_descriptor), (100, 5));
            assert_eq!(w.file_path, "/data/x");
            assert_eq!(w.source, WriteEventSource::Writev);
        }
        other => panic!("{:?}", other),
    }
}

#[test]
fn a_write_path_without_nul_is_refused() {
    let mut e = entry(4144, 0);
    put(&mut e, 40, &vec![b'a'; 4096]);
    assert_eq!(decode(&e).unwrap_err(), ItemError::PathNotTerminated);
    put(&mut e, 4136, &[4u8]);
    assert_eq!(decode(&e).unwrap_err(), ItemError::InvalidBitPattern);
}

#[test]
fn garbage_collect_entries_keep_every_field() {
    let mut e = entry(96, 3);
    for (i, off) in [24usize, 32, 48, 56, 64, 72, 80].iter().enumerate() {
        put(&mut e, *off, &(10 + i as u64).to_le_bytes());
    }
    put(&mut e, 40, &9u32.to_le_bytes());
    put(&mut e, 88, &4u32.to_le_bytes());
    match log(decode(&e).unwrap()).log_event_data {
        Some(LogEventData::GarbageCollect(g)) => {
            assert_eq!((g.target_footprint, g.num_bytes_allocated, g.gc_cause), (10, 11, 9));
            assert_eq!((g.duration_ns, g.freed_objects, g.freed_bytes), (12, 13, 14));
            assert_eq!((g.freed_los_objects, g.freed_los_bytes, g.gcs_completed), (15, 16, 4));
            assert!(g.pause_times.is_empty());
        }
        other => panic!("{:?}", other),
    }
}

#[test]
fn file_descriptor_entries_check_their_operation() {
    let mut e = entry(40, 4);
    put(&mut e, 24, &12u64.to_le_bytes());
    put(&mut e, 32, &[1u8]);
    match log(decode(&e).unwrap()).log_event_data {
        Some(LogEventData::FileDescriptorChange(f)) => {
            assert_eq!(f.open_file_descriptors, 12);
            assert_eq!(f.operation, FileDescriptorOpKind::Close);
        }
        other => panic!("{:?}", other),
    }
    put(&mut e, 32, &[2u8]);
    assert_eq!(decode(&e).unwrap_err(), ItemError::InvalidBitPattern);
}

#[test]
fn jni_entries_name_their_function() {
    let mut e = entry(32, 5);
    put(&mut e, 24, &[3u8]);
    match log(decode(&e).unwrap()).log_event_data {
        Some(LogEventData::JniReferences(j)) => assert_eq!(j.method_name, JniMethodName::DeleteGlobalRef),
        other => panic!("{:?}", other),
    }
    put(&mut e, 24, &[4u8]);
    assert_eq!(decode(&e).unwrap_err(), ItemError::InvalidBitPattern);
}

#[test]
fn unknown_kinds_sizes_and_addresses_are_refused() {
    assert_eq!(decode(&entry(32, 6)).unwrap_err(), ItemError::UnknownKind);
    assert_eq!(decode(&entry(32, 9)).unwrap_err(), ItemError::InvalidBitPattern);
    assert_eq!(event_from_item(&[], BOOT).unwrap_err(), ItemError::SizeMismatch);
    assert_eq!(decode(&entry(40, 1)).unwrap_err(), ItemError::SizeMismatch);
    let words = vec![0u64; 6];
    let bytes: &[u8] = bytemuck::cast_slice(&words);
    let mut shifted = bytes[1..33].to_vec();
    shifted[0] = 1;
    let mut words = vec![0u64; 6];
    {
        let b: &mut [u8] = bytemuck::cast_slice_mut(&mut words);
        b[1..33].copy_from_slice(&shifted);
    }
    let b: &[u8] = bytemuck::cast_slice(&words);
    assert_eq!(
        event_from_item(&b[1..33], BOOT).unwrap_err(),
        ItemError::TargetAlignmentGreaterAndInputNotAligned
    );
    assert_eq!(
        event_from_aligned_item(&b[1..33], false, BOOT).unwrap_err(),
        ItemError::TargetAlignmentGreaterAndInputNotAligned
    );
    assert!(event_from_aligned_item(&b[1..33], true, BOOT).is_ok());
}
