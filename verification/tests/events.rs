use ziofa::calls::{JNICall, JNIMethodName, SysSendmsgCall, VfsWriteCall};
use ziofa::events::{
    duration_from_nanos, duration_since_boot_to_timestamp, Blocking, EbpfEvent, EbpfEventContext,
    EventData, EventKind, FileDescriptorChange, FileDescriptorOp, FileDescriptorOpKind,
    GarbageCollect, JniMethodName, JniReferences, LogEventData, Signal, TaskContext, Write,
    WriteEventSource, WriteSource, Duration, Timestamp,
};

fn ctx(pid: u32, tid: u32, ts: u64) -> EbpfEventContext {
    EbpfEventContext { task: TaskContext { pid, tid }, timestamp: ts }
}

#[test]
fn timestamp_adds_boot_time() {
    let ts = duration_since_boot_to_timestamp(1_700_000_000, 2_500_000_001);
    assert_eq!(ts, Timestamp { seconds: 1_700_000_002, nanos: 500_000_001 });
    let ts = duration_since_boot_to_timestamp(0, 999_999_999);
    assert_eq!(ts, Timestamp { seconds: 0, nanos: 999_999_999 });
}

#[test]
fn duration_splits_nanoseconds() {
    assert_eq!(duration_from_nanos(3_000_000_007), Duration { seconds: 3, nanos: 7 });
    assert_eq!(duration_from_nanos(0), Duration { seconds: 0, nanos: 0 });
}

#[test]
fn index_of_kinds() {
    assert_eq!(EventKind::Write.index(), 0);
    assert_eq!(EventKind::Blocking.index(), 1);
    assert_eq!(EventKind::JniReferences.index(), 5);
}

#[test]
fn write_record_becomes_write_event() {
    let mut path = b"/data/log.txt".to_vec();
    path.push(0);
    path.extend(b"garbage");
    let ev = EbpfEvent {
        context: ctx(10, 11, 1_000_000_000),
        data: Write { bytes_written: 5, file_descriptor: 3, file_path: path, source: WriteSource::WriteV },
    };
    let e = ev.into_event(100);
    match e.event_data {
        Some(EventData::Log(log)) => {
            let c = log.context.unwrap();
            assert_eq!((c.pid, c.tid), (10, 11));
            assert_eq!(c.timestamp, Some(Timestamp { seconds: 101, nanos: 0 }));
            match log.log_event_data {
                Some(LogEventData::Write(w)) => {
                    assert_eq!(w.file_path, "/data/log.txt");
                    assert_eq!(w.bytes_written, 5);
                    assert_eq!(w.file_descriptor, 3);
                    assert_eq!(w.source, WriteEventSource::Writev);
                }
                _ => panic!("expected a write event"),
            }
        }
        _ => panic!("expected a log event"),
    }
}

#[test]
fn invalid_utf8_path_is_decoded_lossily() {
    let ev = EbpfEvent {
        context: ctx(1, 1, 0),
        data: Write { bytes_written: 0, file_descriptor: 0, file_path: vec![b'a', 0xff, b'b', 0], source: WriteSource::Write },
    };
    match ev.into_event(0).event_data {
        Some(EventData::Log(log)) => match log.log_event_data {
            Some(LogEventData::Write(w)) => assert_eq!(w.file_path, "a\u{FFFD}b"),
            _ => panic!("expected a write event"),
        },
        _ => panic!("expected a log event"),
    }
}

#[test]
fn other_records_become_log_events() {
    let sig = EbpfEvent { context: ctx(1, 2, 0), data: Signal { target_pid: 7, signal: 3 } }.into_event(0);
    match sig.event_data {
        Some(EventData::Log(log)) => match log.log_event_data {
            Some(LogEventData::Signal(s)) => assert_eq!((s.target_pid, s.signal), (7, 3)),
            _ => panic!(),
        },
        _ => panic!(),
    }
    let fd = EbpfEvent {
        context: ctx(1, 2, 0),
        data: FileDescriptorChange { open_fds: 12, operation: FileDescriptorOp::Close },
    }
    .into_event(0);
    match fd.event_data {
        Some(EventData::Log(log)) => match log.log_event_data {
            Some(LogEventData::FileDescriptorChange(f)) => {
                assert_eq!(f.open_file_descriptors, 12);
                assert_eq!(f.operation, FileDescriptorOpKind::Close);
            }
            _ => panic!(),
        },
        _ => panic!(),
    }
    let jni = EbpfEvent { context: ctx(1, 2, 0), data: JniReferences::DeleteLocalRef }.into_event(0);
    match jni.event_data {
        Some(EventData::Log(log)) => match log.log_event_data {
            Some(LogEventData::JniReferences(j)) => assert_eq!(j.method_name, JniMethodName::DeleteLocalRef),
            _ => panic!(),
        },
        _ => panic!(),
    }
    let blocking = EbpfEvent { context: ctx(1, 2, 0), data: Blocking { duration: 1_500_000_000 } }.into_event(0);
    match blocking.event_data {
        Some(EventData::Log(log)) => {
            assert_eq!(log.event_kind(), Some(EventKind::Blocking));
            match log.log_event_data {
                Some(LogEventData::Blocking(b)) => {
                    assert_eq!(b.duration, Some(Duration { seconds: 1, nanos: 500_000_000 }))
                }
                _ => panic!(),
            }
        }
        _ => panic!(),
    }
    let gc = EbpfEvent {
        context: ctx(1, 2, 0),
        data: GarbageCollect {
            target_footprint: 1,
            num_bytes_allocated: 2,
            gc_cause: 3,
            duration_ns: 4,
            freed_objects: 5,
            freed_bytes: 6,
            freed_los_objects: 7,
            freed_los_bytes: 8,
            gcs_completed: 9,
        },
    }
    .into_event(0);
    match gc.event_data {
        Some(EventData::Log(log)) => match log.log_event_data {
            Some(LogEventData::GarbageCollect(g)) => {
                assert_eq!(g.freed_bytes, 6);
                assert_eq!(g.freed_los_bytes, 8);
                assert!(g.pause_times.is_empty());
                assert_eq!(g.gcs_completed, 9);
            }
            _ => panic!(),
        },
        _ => panic!(),
    }
}

#[test]
fn calls_become_events() {
    match VfsWriteCall::new(1, 2, 3, 4, 5).into_event().event_data {
        Some(EventData::VfsWrite(v)) => assert_eq!((v.pid, v.tid, v.begin_time_stamp, v.fp, v.bytes_written), (1, 2, 3, 4, 5)),
        _ => panic!(),
    }
    match SysSendmsgCall::new(1, 2, 3, 4, 5).into_event().event_data {
        Some(EventData::SysSendmsg(s)) => assert_eq!((s.fd, s.duration_nano_sec), (4, 5)),
        _ => panic!(),
    }
    let jni = JNICall { pid: 1, tid: 2, begin_time_stamp: 3, method_name: JNIMethodName::AddLocalRef };
    match jni.into_event().event_data {
        Some(EventData::JniReferences(j)) => assert_eq!(j.jni_method_name, JniMethodName::AddLocalRef),
        _ => panic!(),
    }
}
