//! Decoding the entries of the event ring buffer, whatever their kind, into
//! the events that clients receive.
//!
//! An entry is a `repr(C)` record as the eBPF programs write it on a 64-bit
//! little-endian machine: the kind as a one-byte tag at offset 0, the context
//! at offset 8 (the pid and the thread id, four bytes each, then the time
//! since boot in nanoseconds, eight bytes), and the kind's data from offset 24
//! on. A record is read in place, so its entry must have the record's size
//! and start at an address aligned for eight-byte fields.
use vstd::prelude::*;
use crate::calls::{le_bytes, read_u32, read_u64, starts_aligned};
use crate::events::{
    is_blocking_event, is_file_descriptor_change_event, is_garbage_collect_event,
    is_jni_references_event, is_signal_event, is_write_event, Blocking, EbpfEvent,
    EbpfEventContext, Event, EventKind, FileDescriptorChange, FileDescriptorOp, GarbageCollect,
    JniReferences, Signal, TaskContext, Write, WriteSource, EventData, LogEventData,
    WriteEventSource, spec_log_event_kind, spec_kind_index, FileDescriptorOpKind, JniMethodName,
};

verus! {

/// Why a ring buffer entry gives no event.
#[derive(Debug, Copy, Clone, PartialEq, Eq, Structural)]
pub enum ItemError {
    /// The entry does not have the size of the record of its kind (or has
    /// no room for the kind tag).
    SizeMismatch,
    /// The entry does not start at an address aligned for the record.
    TargetAlignmentGreaterAndInputNotAligned,
    /// A tag (the kind, a write's system call, a file descriptor operation,
    /// a JNI function) holds a value that no variant has.
    InvalidBitPattern,
    /// The kind tag is the end marker of the kinds, which is no kind.
    UnknownKind,
    /// A write's file path has no terminating NUL byte.
    PathNotTerminated,
}

/// The value of the kind tag that marks the end of the kinds.
pub const KIND_TAG_MAX: u8 = 6;

/// Offset of the data after the kind tag and the context.
pub const ITEM_DATA_OFFSET: usize = 24;
/// Length of a write's file path buffer.
pub const FILE_PATH_LEN: usize = 4096;
/// Offset of a write's file path.
pub const WRITE_PATH_OFFSET: usize = 40;
/// Offset of a write's system call tag.
pub const WRITE_SOURCE_OFFSET: usize = 4136;

/// Size in bytes of the entry of each kind.
pub open spec fn spec_item_size(kind: EventKind) -> nat {
    match kind {
        EventKind::Write => 4144,
        EventKind::Blocking => 32,
        EventKind::Signal => 32,
        EventKind::GarbageCollect => 96,
        EventKind::FileDescriptorChange => 40,
        EventKind::JniReferences => 32,
    }
}

/// The size in bytes of the entry of `kind`.
pub fn item_size(kind: EventKind) -> (n: usize)
    ensures
        n == spec_item_size(kind),
        n % 8 == 0,
        n >= 32,
{
    match kind {
        EventKind::Write => 4144,
        EventKind::Blocking => 32,
        EventKind::Signal => 32,
        EventKind::GarbageCollect => 96,
        EventKind::FileDescriptorChange => 40,
        EventKind::JniReferences => 32,
    }
}

/// The kind whose tag is `tag`, if the tag is one.
pub open spec fn kind_from_tag(tag: u8) -> Option<EventKind> {
    if tag == 0 {
        Some(EventKind::Write)
    } else if tag == 1 {
        Some(EventKind::Blocking)
    } else if tag == 2 {
        Some(EventKind::Signal)
    } else if tag == 3 {
        Some(EventKind::GarbageCollect)
    } else if tag == 4 {
        Some(EventKind::FileDescriptorChange)
    } else if tag == 5 {
        Some(EventKind::JniReferences)
    } else {
        None
    }
}

/// The kind of the entry `raw`, read from its first byte.
pub open spec fn spec_item_kind(raw: Seq<u8>) -> Result<EventKind, ItemError> {
    if raw.len() == 0 {
        Err(ItemError::SizeMismatch)
    } else {
        match kind_from_tag(raw[0]) {
            Some(kind) => Ok(kind),
            None => if raw[0] == KIND_TAG_MAX {
                Err(ItemError::UnknownKind)
            } else {
                Err(ItemError::InvalidBitPattern)
            },
        }
    }
}

/// The kind of the entry `raw`.
pub fn item_kind(raw: &[u8]) -> (r: Result<EventKind, ItemError>)
    ensures
        r == spec_item_kind(raw@),
{
    if raw.len() == 0 {
        return Err(ItemError::SizeMismatch);
    }
    let tag = raw[0];
    if tag == 0 {
        Ok(EventKind::Write)
    } else if tag == 1 {
        Ok(EventKind::Blocking)
    } else if tag == 2 {
        Ok(EventKind::Signal)
    } else if tag == 3 {
        Ok(EventKind::GarbageCollect)
    } else if tag == 4 {
        Ok(EventKind::FileDescriptorChange)
    } else if tag == 5 {
        Ok(EventKind::JniReferences)
    } else if tag == KIND_TAG_MAX {
        Err(ItemError::UnknownKind)
    } else {
        Err(ItemError::InvalidBitPattern)
    }
}

/// The write system call whose tag is `tag`, if the tag is one.
pub open spec fn write_source_from_tag(tag: u8) -> Option<WriteSource> {
    if tag == 0 {
        Some(WriteSource::Write)
    } else if tag == 1 {
        Some(WriteSource::Write64)
    } else if tag == 2 {
        Some(WriteSource::WriteV)
    } else if tag == 3 {
        Some(WriteSource::WriteV2)
    } else {
        None
    }
}

/// The file descriptor operation whose tag is `tag`, if the tag is one.
pub open spec fn fd_op_from_tag(tag: u8) -> Option<FileDescriptorOp> {
    if tag == 0 {
        Some(FileDescriptorOp::Open)
    } else if tag == 1 {
        Some(FileDescriptorOp::Close)
    } else {
        None
    }
}

/// The JNI function whose tag is `tag`, if the tag is one.
pub open spec fn jni_references_from_tag(tag: u8) -> Option<JniReferences> {
    if tag == 0 {
        Some(JniReferences::AddLocalRef)
    } else if tag == 1 {
        Some(JniReferences::DeleteLocalRef)
    } else if tag == 2 {
        Some(JniReferences::AddGlobalRef)
    } else if tag == 3 {
        Some(JniReferences::DeleteGlobalRef)
    } else {
        None
    }
}

/// The context of the entry `raw`.
pub open spec fn item_context(raw: Seq<u8>) -> EbpfEventContext {
    EbpfEventContext {
        task: TaskContext { pid: le_bytes(raw, 8, 4) as u32, tid: le_bytes(raw, 12, 4) as u32 },
        timestamp: le_bytes(raw, 16, 8) as u64,
    }
}

/// The bytes of a write's file path buffer.
pub open spec fn write_path(raw: Seq<u8>) -> Seq<u8> {
    raw.subrange(WRITE_PATH_OFFSET as int, WRITE_SOURCE_OFFSET as int)
}

/// The blocking record of the entry `raw`.
pub open spec fn blocking_record(raw: Seq<u8>) -> EbpfEvent<Blocking> {
    EbpfEvent { context: item_context(raw), data: Blocking { duration: le_bytes(raw, 24, 8) as u64 } }
}

/// The signal record of the entry `raw`.
pub open spec fn signal_record(raw: Seq<u8>) -> EbpfEvent<Signal> {
    EbpfEvent {
        context: item_context(raw),
        data: Signal { target_pid: le_bytes(raw, 24, 4) as u32 as i32, signal: le_bytes(raw, 28, 4) as u32 },
    }
}

/// The garbage collection record of the entry `raw`.
pub open spec fn garbage_collect_record(raw: Seq<u8>) -> EbpfEvent<GarbageCollect> {
    EbpfEvent {
        context: item_context(raw),
        data: GarbageCollect {
            target_footprint: le_bytes(raw, 24, 8) as u64,
            num_bytes_allocated: le_bytes(raw, 32, 8) as u64,
            gc_cause: le_bytes(raw, 40, 4) as u32,
            duration_ns: le_bytes(raw, 48, 8) as u64,
            freed_objects: le_bytes(raw, 56, 8) as u64,
            freed_bytes: le_bytes(raw, 64, 8) as u64,
            freed_los_objects: le_bytes(raw, 72, 8) as u64,
            freed_los_bytes: le_bytes(raw, 80, 8) as u64,
            gcs_completed: le_bytes(raw, 88, 4) as u32,
        },
    }
}

/// The file descriptor record of the entry `raw`, with its operation.
pub open spec fn file_descriptor_change_record(raw: Seq<u8>, op: FileDescriptorOp) -> EbpfEvent<FileDescriptorChange> {
    EbpfEvent {
        context: item_context(raw),
        data: FileDescriptorChange { open_fds: le_bytes(raw, 24, 8) as u64, operation: op },
    }
}

/// The JNI reference record of the entry `raw`, with its function.
pub open spec fn jni_references_record(raw: Seq<u8>, m: JniReferences) -> EbpfEvent<JniReferences> {
    EbpfEvent { context: item_context(raw), data: m }
}

/// What the entry `raw` of a known kind, of the right size and aligned,
/// gives: `r` is the event of its record, or the error of its data.
pub open spec fn kind_event(kind: EventKind, raw: Seq<u8>, boot_time_secs: u64, r: Result<Event, ItemError>) -> bool {
    match kind {
        EventKind::Write => match write_source_from_tag(raw[WRITE_SOURCE_OFFSET as int]) {
            None => r == Err::<Event, ItemError>(ItemError::InvalidBitPattern),
            Some(source) => if !write_path(raw).contains(0u8) {
                r == Err::<Event, ItemError>(ItemError::PathNotTerminated)
            } else {
                r matches Ok(e) && is_write_event(
                    item_context(raw),
                    le_bytes(raw, 24, 8) as u64,
                    le_bytes(raw, 32, 8) as u64,
                    write_path(raw),
                    source,
                    boot_time_secs,
                    e,
                )
            },
        },
        EventKind::Blocking => r matches Ok(e) && is_blocking_event(blocking_record(raw), boot_time_secs, e),
        EventKind::Signal => r matches Ok(e) && is_signal_event(signal_record(raw), boot_time_secs, e),
        EventKind::GarbageCollect => r matches Ok(e) && is_garbage_collect_event(
            garbage_collect_record(raw),
            boot_time_secs,
            e,
        ),
        EventKind::FileDescriptorChange => match fd_op_from_tag(raw[32]) {
            None => r == Err::<Event, ItemError>(ItemError::InvalidBitPattern),
            Some(op) => r matches Ok(e) && is_file_descriptor_change_event(
                file_descriptor_change_record(raw, op),
                boot_time_secs,
                e,
            ),
        },
        EventKind::JniReferences => match jni_references_from_tag(raw[24]) {
            None => r == Err::<Event, ItemError>(ItemError::InvalidBitPattern),
            Some(m) => r matches Ok(e) && is_jni_references_event(
                jni_references_record(raw, m),
                boot_time_secs,
                e,
            ),
        },
    }
}

/// What the entry `raw` gives, `aligned` telling whether it starts at an
/// aligned address, for a machine booted at `boot_time_secs`: the kind is
/// read first, then the size and the alignment of its record are checked,
/// then the record's tags, and the record becomes its event.
pub open spec fn item_event(raw: Seq<u8>, aligned: bool, boot_time_secs: u64, r: Result<Event, ItemError>) -> bool {
    match spec_item_kind(raw) {
        Err(e) => r == Err::<Event, ItemError>(e),
        Ok(kind) => if raw.len() != spec_item_size(kind) {
            r == Err::<Event, ItemError>(ItemError::SizeMismatch)
        } else if !aligned {
            r == Err::<Event, ItemError>(ItemError::TargetAlignmentGreaterAndInputNotAligned)
        } else {
            kind_event(kind, raw, boot_time_secs, r)
        },
    }
}

fn item_context_of(raw: &[u8]) -> (c: EbpfEventContext)
    requires
        raw@.len() >= 24,
    ensures
        c == item_context(raw@),
{
    EbpfEventContext {
        task: TaskContext { pid: read_u32(raw, 8), tid: read_u32(raw, 12) },
        timestamp: read_u64(raw, 16),
    }
}

fn contains_nul(bytes: &Vec<u8>) -> (b: bool)
    ensures
        b == bytes@.contains(0u8),
{
    let mut i: usize = 0;
    while i < bytes.len()
        invariant
            i <= bytes@.len(),
            forall|j: int| 0 <= j < i ==> bytes@[j] != 0u8,
        decreases bytes@.len() - i,
    {
        if bytes[i] == 0 {
            assert(bytes@[i as int] == 0u8);
            return true;
        }
        i = i + 1;
    }
    false
}

fn write_item_event(raw: &[u8], boot_time_secs: u64) -> (r: Result<Event, ItemError>)
    requires
        raw@.len() == spec_item_size(EventKind::Write),
    ensures
        kind_event(EventKind::Write, raw@, boot_time_secs, r),
{
    let tag = raw[WRITE_SOURCE_OFFSET];
    let source = if tag == 0 {
        WriteSource::Write
    } else if tag == 1 {
        WriteSource::Write64
    } else if tag == 2 {
        WriteSource::WriteV
    } else if tag == 3 {
        WriteSource::WriteV2
    } else {
        return Err(ItemError::InvalidBitPattern);
    };
    let file_path = vstd::slice::slice_to_vec(
        vstd::slice::slice_subrange(raw, WRITE_PATH_OFFSET, WRITE_SOURCE_OFFSET),
    );
    assert(file_path@ == write_path(raw@));
    if !contains_nul(&file_path) {
        return Err(ItemError::PathNotTerminated);
    }
    let record = EbpfEvent {
        context: item_context_of(raw),
        data: Write {
            bytes_written: read_u64(raw, 24),
            file_descriptor: read_u64(raw, 32),
            file_path,
            source,
        },
    };
    Ok(record.into_event(boot_time_secs))
}

fn garbage_collect_item_event(raw: &[u8], boot_time_secs: u64) -> (r: Result<Event, ItemError>)
    requires
        raw@.len() == spec_item_size(EventKind::GarbageCollect),
    ensures
        kind_event(EventKind::GarbageCollect, raw@, boot_time_secs, r),
{
    let record = EbpfEvent {
        context: item_context_of(raw),
        data: GarbageCollect {
            target_footprint: read_u64(raw, 24),
            num_bytes_allocated: read_u64(raw, 32),
            gc_cause: read_u32(raw, 40),
            duration_ns: read_u64(raw, 48),
            freed_objects: read_u64(raw, 56),
            freed_bytes: read_u64(raw, 64),
            freed_los_objects: read_u64(raw, 72),
            freed_los_bytes: read_u64(raw, 80),
            gcs_completed: read_u32(raw, 88),
        },
    };
    assert(record == garbage_collect_record(raw@));
    Ok(record.into_event(boot_time_secs))
}

/// The event of the entry `raw`, given whether it starts at an aligned
/// address.
pub fn event_from_aligned_item(raw: &[u8], aligned: bool, boot_time_secs: u64) -> (r: Result<Event, ItemError>)
    ensures
        item_event(raw@, aligned, boot_time_secs, r),
{
    let kind = match item_kind(raw) {
        Ok(kind) => kind,
        Err(e) => return Err(e),
    };
    if raw.len() != item_size(kind) {
        return Err(ItemError::SizeMismatch);
    }
    if !aligned {
        return Err(ItemError::TargetAlignmentGreaterAndInputNotAligned);
    }
    match kind {
        EventKind::Write => write_item_event(raw, boot_time_secs),
        EventKind::Blocking => {
            let record = EbpfEvent {
                context: item_context_of(raw),
                data: Blocking { duration: read_u64(raw, 24) },
            };
            assert(record == blocking_record(raw@));
            Ok(record.into_event(boot_time_secs))
        },
        EventKind::Signal => {
            let target_pid = read_u32(raw, 24) as i32;
            let record = EbpfEvent {
                context: item_context_of(raw),
                data: Signal { target_pid, signal: read_u32(raw, 28) },
            };
            assert(record == signal_record(raw@));
            Ok(record.into_event(boot_time_secs))
        },
        EventKind::GarbageCollect => garbage_collect_item_event(raw, boot_time_secs),
        EventKind::FileDescriptorChange => {
            let tag = raw[32];
            let operation = if tag == 0 {
                FileDescriptorOp::Open
            } else if tag == 1 {
                FileDescriptorOp::Close
            } else {
                return Err(ItemError::InvalidBitPattern);
            };
            let record = EbpfEvent {
                context: item_context_of(raw),
                data: FileDescriptorChange { open_fds: read_u64(raw, 24), operation },
            };
            assert(record == file_descriptor_change_record(raw@, operation));
            Ok(record.into_event(boot_time_secs))
        },
        EventKind::JniReferences => {
            let tag = raw[24];
            let m = if tag == 0 {
                JniReferences::AddLocalRef
            } else if tag == 1 {
                JniReferences::DeleteLocalRef
            } else if tag == 2 {
                JniReferences::AddGlobalRef
            } else if tag == 3 {
                JniReferences::DeleteGlobalRef
            } else {
                return Err(ItemError::InvalidBitPattern);
            };
            let record = EbpfEvent { context: item_context_of(raw), data: m };
            assert(record == jni_references_record(raw@, m));
            Ok(record.into_event(boot_time_secs))
        },
    }
}

/// The event of the ring buffer entry `raw`, for a machine booted at
/// `boot_time_secs` seconds since the epoch. The entry is read in place:
/// whether its address is aligned is asked of the buffer, and the result is
/// what `item_event` gives for the answer.
pub fn event_from_item(raw: &[u8], boot_time_secs: u64) -> (r: Result<Event, ItemError>)
    ensures
        exists|aligned: bool| item_event(raw@, aligned, boot_time_secs, r),
{
    let kind = match item_kind(raw) {
        Ok(kind) => kind,
        Err(e) => {
            let r = Err(e);
            assert(item_event(raw@, true, boot_time_secs, r));
            return r;
        },
    };
    if raw.len() != item_size(kind) {
        let r = Err(ItemError::SizeMismatch);
        assert(item_event(raw@, true, boot_time_secs, r));
        return r;
    }
    let aligned = starts_aligned(raw);
    let r = event_from_aligned_item(raw, aligned, boot_time_secs);
    assert(item_event(raw@, aligned, boot_time_secs, r));
    r
}

/// The position of a client-side write system call in the list of them
/// (`write`, `write64`, `writev`, `writev2`), which is also the order of the
/// tags that the eBPF programs write.
pub open spec fn write_event_source_position(s: WriteEventSource) -> u8 {
    match s {
        WriteEventSource::Write => 0,
        WriteEventSource::Write64 => 1,
        WriteEventSource::Writev => 2,
        WriteEventSource::Writev2 => 3,
    }
}

/// An entry decodes to an event of its own kind: the event is a log event,
/// its data is of the kind whose index is the entry's kind tag, and asking
/// the event for its kind gives that kind back. This is what lets each
/// aggregator pick the events of its kind.
pub proof fn lemma_item_event_kind(raw: Seq<u8>, aligned: bool, boot_time_secs: u64, e: Event)
    requires
        item_event(raw, aligned, boot_time_secs, Ok(e)),
    ensures
        raw.len() > 0,
        e.event_data matches Some(EventData::Log(log)) && spec_log_event_kind(log) matches Some(k)
            && spec_kind_index(k) == raw[0],
{
}

/// A write entry decodes to a write event whose system call is the one the
/// entry's tag names: its position among the client-side system calls is
/// the tag.
pub proof fn lemma_write_item_source(raw: Seq<u8>, aligned: bool, boot_time_secs: u64, e: Event)
    requires
        item_event(raw, aligned, boot_time_secs, Ok(e)),
        raw.len() > 0,
        raw[0] == 0,
    ensures
        e.event_data matches Some(EventData::Log(log)) && log.log_event_data matches Some(
            LogEventData::Write(w),
        ) && write_event_source_position(w.source) == raw[WRITE_SOURCE_OFFSET as int],
{
}

/// The position of a client-side file descriptor operation (open, close),
/// which is also the order of the tags that the eBPF programs write.
pub open spec fn fd_op_kind_position(k: FileDescriptorOpKind) -> u8 {
    match k {
        FileDescriptorOpKind::Open => 0,
        FileDescriptorOpKind::Close => 1,
    }
}

/// The position of a client-side JNI function (add local, delete local, add
/// global, delete global), which is also the order of the tags that the eBPF
/// programs write.
pub open spec fn jni_method_name_position(m: JniMethodName) -> u8 {
    match m {
        JniMethodName::AddLocalRef => 0,
        JniMethodName::DeleteLocalRef => 1,
        JniMethodName::AddGlobalRef => 2,
        JniMethodName::DeleteGlobalRef => 3,
    }
}

/// A file descriptor entry decodes to an event of the operation its tag
/// names, and a JNI entry to an event of the function its tag names.
pub proof fn lemma_tagged_item_data(raw: Seq<u8>, aligned: bool, boot_time_secs: u64, e: Event)
    requires
        item_event(raw, aligned, boot_time_secs, Ok(e)),
    ensures
        raw.len() > 0 && raw[0] == 4 ==> (e.event_data matches Some(EventData::Log(log))
            && log.log_event_data matches Some(LogEventData::FileDescriptorChange(f))
            && fd_op_kind_position(f.operation) == raw[32]),
        raw.len() > 0 && raw[0] == 5 ==> (e.event_data matches Some(EventData::Log(log))
            && log.log_event_data matches Some(LogEventData::JniReferences(j))
            && jni_method_name_position(j.method_name) == raw[24]),
{
}

} // verus!
