//! The events that the daemon streams to its clients, and how the records of
//! the eBPF programs become such events.
use vstd::prelude::*;
use std::collections::HashMap;
use crate::calls::{JNICall, JNIMethodName, SysSendmsgCall, VfsWriteCall};

verus! {

// ---------------------------------------------------------------------------
// Records as the eBPF programs write them

/// The kinds of events that the eBPF programs report.
#[derive(Debug, Copy, Clone, PartialEq, Eq, Structural)]
pub enum EventKind {
    Write,
    Blocking,
    Signal,
    GarbageCollect,
    FileDescriptorChange,
    JniReferences,
}

/// The number of event kinds; indices of event kinds are below it.
pub const EVENT_KIND_MAX: usize = 6;

/// The index of an event kind, as used in bit masks and in the filter table.
pub open spec fn spec_kind_index(kind: EventKind) -> u32 {
    match kind {
        EventKind::Write => 0,
        EventKind::Blocking => 1,
        EventKind::Signal => 2,
        EventKind::GarbageCollect => 3,
        EventKind::FileDescriptorChange => 4,
        EventKind::JniReferences => 5,
    }
}

impl EventKind {
    /// The index of this kind.
    pub fn index(&self) -> (i: u32)
        ensures
            i == spec_kind_index(*self),
            i < EVENT_KIND_MAX,
    {
        match self {
            EventKind::Write => 0,
            EventKind::Blocking => 1,
            EventKind::Signal => 2,
            EventKind::GarbageCollect => 3,
            EventKind::FileDescriptorChange => 4,
            EventKind::JniReferences => 5,
        }
    }
}

/// The task an eBPF record was taken in.
#[derive(Debug, Copy, Clone)]
pub struct TaskContext {
    pub pid: u32,
    pub tid: u32,
}

/// Where and when an eBPF record was taken; `timestamp` counts nanoseconds
/// since boot.
#[derive(Debug, Copy, Clone)]
pub struct EbpfEventContext {
    pub task: TaskContext,
    pub timestamp: u64,
}

/// An eBPF record: its context and its kind-specific data.
#[derive(Debug, Clone)]
pub struct EbpfEvent<T> {
    pub context: EbpfEventContext,
    pub data: T,
}

/// The system call a write went through.
#[derive(Debug, Copy, Clone, PartialEq, Eq, Structural)]
pub enum WriteSource {
    Write,
    Write64,
    WriteV,
    WriteV2,
}

/// A write to a file descriptor.
#[derive(Debug, Clone)]
pub struct Write {
    pub bytes_written: u64,
    pub file_descriptor: u64,
    /// The path of the file, NUL-terminated.
    pub file_path: Vec<u8>,
    pub source: WriteSource,
}

/// A signal sent to a process.
#[derive(Debug, Copy, Clone)]
pub struct Signal {
    pub target_pid: i32,
    pub signal: u32,
}

/// Statistics of one garbage collection of the Android runtime.
#[derive(Debug, Copy, Clone)]
pub struct GarbageCollect {
    pub target_footprint: u64,
    pub num_bytes_allocated: u64,
    pub gc_cause: u32,
    pub duration_ns: u64,
    pub freed_objects: u64,
    pub freed_bytes: u64,
    pub freed_los_objects: u64,
    pub freed_los_bytes: u64,
    pub gcs_completed: u32,
}

/// Whether a file descriptor was opened or closed.
#[derive(Debug, Copy, Clone, PartialEq, Eq, Structural)]
pub enum FileDescriptorOp {
    Open,
    Close,
}

/// A change of the number of open file descriptors of a process.
#[derive(Debug, Copy, Clone)]
pub struct FileDescriptorChange {
    pub open_fds: u64,
    pub operation: FileDescriptorOp,
}

/// A call of one of the JNI reference functions.
#[derive(Debug, Copy, Clone, PartialEq, Eq, Structural)]
pub enum JniReferences {
    AddLocalRef,
    DeleteLocalRef,
    AddGlobalRef,
    DeleteGlobalRef,
}

/// A stretch of time in which a thread was blocked, in nanoseconds.
#[derive(Debug, Copy, Clone)]
pub struct Blocking {
    pub duration: u64,
}

// ---------------------------------------------------------------------------
// Events as the clients receive them

/// A point in time: seconds since the epoch and nanoseconds.
#[derive(Debug, Copy, Clone, PartialEq, Eq, Structural)]
pub struct Timestamp {
    pub seconds: i64,
    pub nanos: i32,
}

/// A span of time: seconds and nanoseconds.
#[derive(Debug, Copy, Clone, PartialEq, Eq, Structural)]
pub struct Duration {
    pub seconds: i64,
    pub nanos: i32,
}

/// The process and thread an event belongs to, and when it happened.
#[derive(Debug, Copy, Clone, PartialEq, Eq, Structural)]
pub struct EventContext {
    pub pid: u32,
    pub tid: u32,
    pub timestamp: Option<Timestamp>,
}

/// The system call of a write, as clients see it.
#[derive(Debug, Copy, Clone, PartialEq, Eq, Structural)]
pub enum WriteEventSource {
    Write,
    Write64,
    Writev,
    Writev2,
}

#[derive(Debug, Clone)]
pub struct WriteEvent {
    pub bytes_written: u64,
    pub file_descriptor: u64,
    pub file_path: String,
    pub source: WriteEventSource,
}

#[derive(Debug, Copy, Clone)]
pub struct SignalEvent {
    pub target_pid: i32,
    pub signal: u32,
}

#[derive(Debug, Clone)]
pub struct GarbageCollectEvent {
    pub target_footprint: u64,
    pub num_bytes_allocated: u64,
    pub gc_cause: u32,
    pub freed_bytes: i64,
    pub freed_objects: u64,
    pub pause_times: Vec<u64>,
    pub duration_ns: u64,
    pub freed_los_bytes: i64,
    pub freed_los_objects: u64,
    pub gcs_completed: u32,
}

#[derive(Debug, Copy, Clone, PartialEq, Eq, Structural)]
pub enum FileDescriptorOpKind {
    Open,
    Close,
}

#[derive(Debug, Copy, Clone)]
pub struct FileDescriptorChangeEvent {
    pub open_file_descriptors: u64,
    pub operation: FileDescriptorOpKind,
}

/// The JNI reference functions, as clients see them.
#[derive(Debug, Copy, Clone, PartialEq, Eq, Structural)]
pub enum JniMethodName {
    AddLocalRef,
    DeleteLocalRef,
    AddGlobalRef,
    DeleteGlobalRef,
}

#[derive(Debug, Copy, Clone)]
pub struct JniReferencesEvent {
    pub method_name: JniMethodName,
}

#[derive(Debug, Copy, Clone)]
pub struct BlockingEvent {
    pub duration: Option<Duration>,
}

/// The kind-specific part of a log event.
#[derive(Debug, Clone)]
pub enum LogEventData {
    Write(WriteEvent),
    Signal(SignalEvent),
    GarbageCollect(GarbageCollectEvent),
    FileDescriptorChange(FileDescriptorChangeEvent),
    JniReferences(JniReferencesEvent),
    Blocking(BlockingEvent),
}

/// An event reported for one process.
#[derive(Debug, Clone)]
pub struct LogEvent {
    pub context: Option<EventContext>,
    pub log_event_data: Option<LogEventData>,
}

/// The samples of one time series.
#[derive(Debug, Clone)]
pub struct TimeSeriesData {
    pub list: Vec<u64>,
}

/// Per-process time series of event counts for one kind of event.
#[derive(Debug, Clone)]
pub struct TimeSeriesEvent {
    pub event_kind: EventKind,
    pub timeframe_ms: u32,
    pub time_series_map: HashMap<u32, TimeSeriesData>,
}

/// A `vfs_write` call, as clients see it.
#[derive(Debug, Copy, Clone)]
pub struct VfsWriteEvent {
    pub pid: u32,
    pub tid: u32,
    pub begin_time_stamp: u64,
    pub fp: u64,
    pub bytes_written: u64,
}

/// A `sendmsg` call, as clients see it.
#[derive(Debug, Copy, Clone)]
pub struct SysSendmsgEvent {
    pub pid: u32,
    pub tid: u32,
    pub begin_time_stamp: u64,
    pub fd: u64,
    pub duration_nano_sec: u64,
}

/// A JNI reference call, as clients see it.
#[derive(Debug, Copy, Clone)]
pub struct JniCallEvent {
    pub pid: u32,
    pub tid: u32,
    pub begin_time_stamp: u64,
    pub jni_method_name: JniMethodName,
}

#[derive(Debug, Clone)]
pub enum EventData {
    Log(LogEvent),
    TimeSeries(TimeSeriesEvent),
    VfsWrite(VfsWriteEvent),
    SysSendmsg(SysSendmsgEvent),
    JniReferences(JniCallEvent),
}

/// An event streamed to the clients. An event without data is the tick of a
/// timer.
#[derive(Debug, Clone)]
pub struct Event {
    pub event_data: Option<EventData>,
}

// ---------------------------------------------------------------------------
// Conversions

pub open spec fn nanos_per_second() -> int {
    1_000_000_000
}

/// The wall-clock time of a record taken `nanos` nanoseconds after boot, for a
/// machine booted at `boot_time_secs` seconds since the epoch.
pub open spec fn spec_timestamp(boot_time_secs: u64, nanos: u64) -> Timestamp {
    Timestamp {
        seconds: (boot_time_secs + nanos / 1_000_000_000u64) as i64,
        nanos: (nanos % 1_000_000_000u64) as i32,
    }
}

/// Converts a time since boot in nanoseconds into a timestamp.
/// The seconds wrap around as 64-bit integers do.
pub fn duration_since_boot_to_timestamp(boot_time_secs: u64, nanos: u64) -> (ts: Timestamp)
    ensures
        ts == spec_timestamp(boot_time_secs, nanos),
        0 <= ts.nanos < 1_000_000_000,
{
    let seconds_since_boot = nanos / 1_000_000_000;
    let seconds = (boot_time_secs as u128 + seconds_since_boot as u128) as i64;
    let sub_nanos = (nanos % 1_000_000_000) as i32;
    assert(seconds == (boot_time_secs + nanos / 1_000_000_000u64) as i64) by (bit_vector)
        requires
            seconds == (boot_time_secs as u128 + seconds_since_boot as u128) as i64,
            seconds_since_boot == nanos / 1_000_000_000u64,
    ;
    Timestamp { seconds, nanos: sub_nanos }
}

/// Converting a time since boot into a timestamp loses nothing: the
/// timestamp's seconds and nanoseconds add up to the boot time plus the time
/// since boot, as long as the seconds fit in an `i64`.
pub proof fn lemma_timestamp_exact(boot_time_secs: u64, nanos: u64)
    requires
        boot_time_secs + nanos / 1_000_000_000 <= i64::MAX,
    ensures
        spec_timestamp(boot_time_secs, nanos).seconds * nanos_per_second() + spec_timestamp(
            boot_time_secs,
            nanos,
        ).nanos == boot_time_secs * nanos_per_second() + nanos,
        0 <= spec_timestamp(boot_time_secs, nanos).nanos < nanos_per_second(),
{
    let q = nanos / 1_000_000_000u64;
    let r = nanos % 1_000_000_000u64;
    assert(q * 1_000_000_000 + r == nanos) by (nonlinear_arith)
        requires
            q == nanos / 1_000_000_000u64,
            r == nanos % 1_000_000_000u64,
    ;
    assert((boot_time_secs + q) * 1_000_000_000 == boot_time_secs * 1_000_000_000 + q * 1_000_000_000)
        by (nonlinear_arith);
}

/// The duration of `nanos` nanoseconds.
pub open spec fn spec_duration_from_nanos(nanos: u64) -> Duration {
    Duration { seconds: (nanos / 1_000_000_000u64) as i64, nanos: (nanos % 1_000_000_000u64) as i32 }
}

pub fn duration_from_nanos(nanos: u64) -> (d: Duration)
    ensures
        d == spec_duration_from_nanos(nanos),
        d.seconds >= 0,
        0 <= d.nanos < 1_000_000_000,
{
    Duration { seconds: (nanos / 1_000_000_000) as i64, nanos: (nanos % 1_000_000_000) as i32 }
}

/// The text that lossy UTF-8 decoding makes of `bytes`, invalid sequences
/// replaced by U+FFFD.
pub uninterp spec fn lossy_utf8(bytes: Seq<u8>) -> Seq<char>;

/// Calls `String::from_utf8_lossy`. Its documentation promises that valid
/// UTF-8 is decoded unchanged; what it makes of invalid input is given only
/// the name `lossy_utf8`.
#[verifier::external_body]
fn from_utf8_lossy(bytes: &[u8]) -> (s: String)
    ensures
        s@ == lossy_utf8(bytes@),
        vstd::utf8::valid_utf8(bytes@) ==> s@ == vstd::utf8::decode_utf8(bytes@),
{
    String::from_utf8_lossy(bytes).into_owned()
}

/// The bytes of `s` before its first NUL byte.
pub open spec fn c_str_bytes(s: Seq<u8>) -> Seq<u8>
    recommends
        s.contains(0u8),
{
    s.take(first_nul(s))
}

/// The index of the first NUL byte of `s` (its length if there is none).
pub open spec fn first_nul(s: Seq<u8>) -> int
    decreases s.len(),
{
    if s.len() == 0 {
        0
    } else if s[0] == 0u8 {
        0
    } else {
        1 + first_nul(s.drop_first())
    }
}

proof fn lemma_first_nul(s: Seq<u8>, i: int)
    requires
        0 <= i <= s.len(),
        forall|j: int| 0 <= j < i ==> s[j] != 0u8,
        i == s.len() || s[i] == 0u8,
    ensures
        first_nul(s) == i,
    decreases s.len(),
{
    if s.len() > 0 && i > 0 {
        assert forall|j: int| 0 <= j < i - 1 implies s.drop_first()[j] != 0u8 by {
            assert(s.drop_first()[j] == s[j + 1]);
        }
        lemma_first_nul(s.drop_first(), i - 1);
    }
}

/// The text of a NUL-terminated path, decoded lossily.
fn c_str_to_string(bytes: &Vec<u8>) -> (s: String)
    requires
        bytes@.contains(0u8),
    ensures
        s@ == lossy_utf8(c_str_bytes(bytes@)),
{
    let mut i: usize = 0;
    while i < bytes.len() && bytes[i] != 0
        invariant
            i <= bytes.len(),
            forall|j: int| 0 <= j < i ==> bytes@[j] != 0u8,
        decreases bytes.len() - i,
    {
        i = i + 1;
    }
    proof {
        lemma_first_nul(bytes@, i as int);
    }
    let slice = vstd::slice::slice_subrange(bytes.as_slice(), 0, i);
    assert(slice@ == c_str_bytes(bytes@));
    from_utf8_lossy(slice)
}

/// The client-side name of a write's system call.
pub open spec fn spec_write_source(source: WriteSource) -> WriteEventSource {
    match source {
        WriteSource::Write => WriteEventSource::Write,
        WriteSource::Write64 => WriteEventSource::Write64,
        WriteSource::WriteV => WriteEventSource::Writev,
        WriteSource::WriteV2 => WriteEventSource::Writev2,
    }
}

/// The client-side name of a file descriptor operation.
pub open spec fn spec_fd_op(op: FileDescriptorOp) -> FileDescriptorOpKind {
    match op {
        FileDescriptorOp::Open => FileDescriptorOpKind::Open,
        FileDescriptorOp::Close => FileDescriptorOpKind::Close,
    }
}

/// The client-side name of a JNI reference function.
pub open spec fn spec_jni_method(m: JniReferences) -> JniMethodName {
    match m {
        JniReferences::AddLocalRef => JniMethodName::AddLocalRef,
        JniReferences::DeleteLocalRef => JniMethodName::DeleteLocalRef,
        JniReferences::AddGlobalRef => JniMethodName::AddGlobalRef,
        JniReferences::DeleteGlobalRef => JniMethodName::DeleteGlobalRef,
    }
}

/// The client-side name of a JNI method from a traced call record.
pub open spec fn spec_jni_call_method(m: JNIMethodName) -> JniMethodName {
    match m {
        JNIMethodName::AddLocalRef => JniMethodName::AddLocalRef,
        JNIMethodName::DeleteLocalRef => JniMethodName::DeleteLocalRef,
        JNIMethodName::AddGlobalRef => JniMethodName::AddGlobalRef,
        JNIMethodName::DeleteGlobalRef => JniMethodName::DeleteGlobalRef,
    }
}

/// The context of the log event made from a record taken in `ctx`.
pub open spec fn spec_log_context(ctx: EbpfEventContext, boot_time_secs: u64) -> EventContext {
    EventContext {
        pid: ctx.task.pid,
        tid: ctx.task.tid,
        timestamp: Some(spec_timestamp(boot_time_secs, ctx.timestamp)),
    }
}

fn log_context(ctx: EbpfEventContext, boot_time_secs: u64) -> (c: EventContext)
    ensures
        c == spec_log_context(ctx, boot_time_secs),
{
    EventContext {
        pid: ctx.task.pid,
        tid: ctx.task.tid,
        timestamp: Some(duration_since_boot_to_timestamp(boot_time_secs, ctx.timestamp)),
    }
}

/// `e` is a log event with context `ctx` and data `data`.
pub open spec fn is_log_event(e: Event, ctx: EventContext, data: LogEventData) -> bool {
    &&& e.event_data matches Some(EventData::Log(log))
    &&& log.context == Some(ctx)
    &&& log.log_event_data == Some(data)
}

/// `e` is the log event of a write record taken in `ctx` that wrote
/// `bytes_written` bytes to descriptor `fd` through `source`, the file's path
/// given by the NUL-terminated bytes `path`.
pub open spec fn is_write_event(
    ctx: EbpfEventContext,
    bytes_written: u64,
    fd: u64,
    path: Seq<u8>,
    source: WriteSource,
    boot_time_secs: u64,
    e: Event,
) -> bool {
    e.event_data matches Some(EventData::Log(log)) && {
        &&& log.context == Some(spec_log_context(ctx, boot_time_secs))
        &&& log.log_event_data matches Some(LogEventData::Write(w)) && {
            &&& w.bytes_written == bytes_written
            &&& w.file_descriptor == fd
            &&& w.file_path@ == lossy_utf8(c_str_bytes(path))
            &&& w.source == spec_write_source(source)
        }
    }
}

/// `e` is the log event of the signal record `rec`.
pub open spec fn is_signal_event(rec: EbpfEvent<Signal>, boot_time_secs: u64, e: Event) -> bool {
    is_log_event(
        e,
        spec_log_context(rec.context, boot_time_secs),
        LogEventData::Signal(SignalEvent { target_pid: rec.data.target_pid, signal: rec.data.signal }),
    )
}

/// `e` is the log event of the garbage collection record `rec`.
pub open spec fn is_garbage_collect_event(rec: EbpfEvent<GarbageCollect>, boot_time_secs: u64, e: Event) -> bool {
    e.event_data matches Some(EventData::Log(log)) && {
        &&& log.context == Some(spec_log_context(rec.context, boot_time_secs))
        &&& log.log_event_data matches Some(LogEventData::GarbageCollect(g)) && {
            &&& g.target_footprint == rec.data.target_footprint
            &&& g.num_bytes_allocated == rec.data.num_bytes_allocated
            &&& g.gc_cause == rec.data.gc_cause
            &&& g.freed_bytes == rec.data.freed_bytes as i64
            &&& g.freed_objects == rec.data.freed_objects
            &&& g.pause_times@.len() == 0
            &&& g.duration_ns == rec.data.duration_ns
            &&& g.freed_los_bytes == rec.data.freed_los_bytes as i64
            &&& g.freed_los_objects == rec.data.freed_los_objects
            &&& g.gcs_completed == rec.data.gcs_completed
        }
    }
}

/// `e` is the log event of the file descriptor record `rec`.
pub open spec fn is_file_descriptor_change_event(
    rec: EbpfEvent<FileDescriptorChange>,
    boot_time_secs: u64,
    e: Event,
) -> bool {
    is_log_event(
        e,
        spec_log_context(rec.context, boot_time_secs),
        LogEventData::FileDescriptorChange(
            FileDescriptorChangeEvent {
                open_file_descriptors: rec.data.open_fds,
                operation: spec_fd_op(rec.data.operation),
            },
        ),
    )
}

/// `e` is the log event of the JNI reference record `rec`.
pub open spec fn is_jni_references_event(rec: EbpfEvent<JniReferences>, boot_time_secs: u64, e: Event) -> bool {
    is_log_event(
        e,
        spec_log_context(rec.context, boot_time_secs),
        LogEventData::JniReferences(JniReferencesEvent { method_name: spec_jni_method(rec.data) }),
    )
}

/// `e` is the log event of the blocking record `rec`.
pub open spec fn is_blocking_event(rec: EbpfEvent<Blocking>, boot_time_secs: u64, e: Event) -> bool {
    is_log_event(
        e,
        spec_log_context(rec.context, boot_time_secs),
        LogEventData::Blocking(BlockingEvent { duration: Some(spec_duration_from_nanos(rec.data.duration)) }),
    )
}

impl EbpfEvent<Write> {
    pub fn into_event(self, boot_time_secs: u64) -> (e: Event)
        requires
            self.data.file_path@.contains(0u8),
        ensures
            is_write_event(
                self.context,
                self.data.bytes_written,
                self.data.file_descriptor,
                self.data.file_path@,
                self.data.source,
                boot_time_secs,
                e,
            ),
    {
        let source = match self.data.source {
            WriteSource::Write => WriteEventSource::Write,
            WriteSource::Write64 => WriteEventSource::Write64,
            WriteSource::WriteV => WriteEventSource::Writev,
            WriteSource::WriteV2 => WriteEventSource::Writev2,
        };
        let file_path = c_str_to_string(&self.data.file_path);
        Event {
            event_data: Some(
                EventData::Log(
                    LogEvent {
                        context: Some(log_context(self.context, boot_time_secs)),
                        log_event_data: Some(
                            LogEventData::Write(
                                WriteEvent {
                                    bytes_written: self.data.bytes_written,
                                    file_descriptor: self.data.file_descriptor,
                                    file_path,
                                    source,
                                },
                            ),
                        ),
                    },
                ),
            ),
        }
    }
}

impl EbpfEvent<Signal> {
    pub fn into_event(self, boot_time_secs: u64) -> (e: Event)
        ensures
            is_signal_event(self, boot_time_secs, e),
    {
        Event {
            event_data: Some(
                EventData::Log(
                    LogEvent {
                        context: Some(log_context(self.context, boot_time_secs)),
                        log_event_data: Some(
                            LogEventData::Signal(
                                SignalEvent {
                                    target_pid: self.data.target_pid,
                                    signal: self.data.signal,
                                },
                            ),
                        ),
                    },
                ),
            ),
        }
    }
}

impl EbpfEvent<GarbageCollect> {
    pub fn into_event(self, boot_time_secs: u64) -> (e: Event)
        ensures
            is_garbage_collect_event(self, boot_time_secs, e),
    {
        Event {
            event_data: Some(
                EventData::Log(
                    LogEvent {
                        context: Some(log_context(self.context, boot_time_secs)),
                        log_event_data: Some(
                            LogEventData::GarbageCollect(
                                GarbageCollectEvent {
                                    target_footprint: self.data.target_footprint,
                                    num_bytes_allocated: self.data.num_bytes_allocated,
                                    gc_cause: self.data.gc_cause,
                                    freed_bytes: self.data.freed_bytes as i64,
                                    freed_objects: self.data.freed_objects,
                                    pause_times: Vec::new(),
                                    duration_ns: self.data.duration_ns,
                                    freed_los_bytes: self.data.freed_los_bytes as i64,
                                    freed_los_objects: self.data.freed_los_objects,
                                    gcs_completed: self.data.gcs_completed,
                                },
                            ),
                        ),
                    },
                ),
            ),
        }
    }
}

impl EbpfEvent<FileDescriptorChange> {
    pub fn into_event(self, boot_time_secs: u64) -> (e: Event)
        ensures
            is_file_descriptor_change_event(self, boot_time_secs, e),
    {
        let operation = match self.data.operation {
            FileDescriptorOp::Open => FileDescriptorOpKind::Open,
            FileDescriptorOp::Close => FileDescriptorOpKind::Close,
        };
        Event {
            event_data: Some(
                EventData::Log(
                    LogEvent {
                        context: Some(log_context(self.context, boot_time_secs)),
                        log_event_data: Some(
                            LogEventData::FileDescriptorChange(
                                FileDescriptorChangeEvent {
                                    open_file_descriptors: self.data.open_fds,
                                    operation,
                                },
                            ),
                        ),
                    },
                ),
            ),
        }
    }
}

impl EbpfEvent<JniReferences> {
    pub fn into_event(self, boot_time_secs: u64) -> (e: Event)
        ensures
            is_jni_references_event(self, boot_time_secs, e),
    {
        let method_name = match self.data {
            JniReferences::AddLocalRef => JniMethodName::AddLocalRef,
            JniReferences::DeleteLocalRef => JniMethodName::DeleteLocalRef,
            JniReferences::AddGlobalRef => JniMethodName::AddGlobalRef,
            JniReferences::DeleteGlobalRef => JniMethodName::DeleteGlobalRef,
        };
        Event {
            event_data: Some(
                EventData::Log(
                    LogEvent {
                        context: Some(log_context(self.context, boot_time_secs)),
                        log_event_data: Some(
                            LogEventData::JniReferences(JniReferencesEvent { method_name }),
                        ),
                    },
                ),
            ),
        }
    }
}

impl EbpfEvent<Blocking> {
    pub fn into_event(self, boot_time_secs: u64) -> (e: Event)
        ensures
            is_blocking_event(self, boot_time_secs, e),
    {
        Event {
            event_data: Some(
                EventData::Log(
                    LogEvent {
                        context: Some(log_context(self.context, boot_time_secs)),
                        log_event_data: Some(
                            LogEventData::Blocking(
                                BlockingEvent {
                                    duration: Some(duration_from_nanos(self.data.duration)),
                                },
                            ),
                        ),
                    },
                ),
            ),
        }
    }
}

impl VfsWriteCall {
    pub fn into_event(self) -> (e: Event)
        ensures
            e.event_data matches Some(EventData::VfsWrite(v)) && v.pid == self.pid && v.tid
                == self.tid && v.begin_time_stamp == self.begin_time_stamp && v.fp == self.fp
                && v.bytes_written == self.bytes_written as u64,
    {
        Event {
            event_data: Some(
                EventData::VfsWrite(
                    VfsWriteEvent {
                        pid: self.pid,
                        tid: self.tid,
                        begin_time_stamp: self.begin_time_stamp,
                        fp: self.fp,
                        bytes_written: self.bytes_written as u64,
                    },
                ),
            ),
        }
    }
}

impl SysSendmsgCall {
    pub fn into_event(self) -> (e: Event)
        ensures
            e.event_data matches Some(EventData::SysSendmsg(v)) && v.pid == self.pid && v.tid
                == self.tid && v.begin_time_stamp == self.begin_time_stamp && v.fd == self.fd
                && v.duration_nano_sec == self.duration_nano_sec,
    {
        Event {
            event_data: Some(
                EventData::SysSendmsg(
                    SysSendmsgEvent {
                        pid: self.pid,
                        tid: self.tid,
                        begin_time_stamp: self.begin_time_stamp,
                        fd: self.fd,
                        duration_nano_sec: self.duration_nano_sec,
                    },
                ),
            ),
        }
    }
}

impl JNICall {
    pub fn into_event(self) -> (e: Event)
        ensures
            e.event_data matches Some(EventData::JniReferences(v)) && v.pid == self.pid && v.tid
                == self.tid && v.begin_time_stamp == self.begin_time_stamp && v.jni_method_name
                == spec_jni_call_method(self.method_name),
    {
        let jni_method_name = match self.method_name {
            JNIMethodName::AddLocalRef => JniMethodName::AddLocalRef,
            JNIMethodName::DeleteLocalRef => JniMethodName::DeleteLocalRef,
            JNIMethodName::AddGlobalRef => JniMethodName::AddGlobalRef,
            JNIMethodName::DeleteGlobalRef => JniMethodName::DeleteGlobalRef,
        };
        Event {
            event_data: Some(
                EventData::JniReferences(
                    JniCallEvent {
                        pid: self.pid,
                        tid: self.tid,
                        begin_time_stamp: self.begin_time_stamp,
                        jni_method_name,
                    },
                ),
            ),
        }
    }
}

/// The kind of a log event, given by the kind of its data.
pub open spec fn spec_log_event_kind(event: LogEvent) -> Option<EventKind> {
    match event.log_event_data {
        Some(LogEventData::Write(_)) => Some(EventKind::Write),
        Some(LogEventData::Signal(_)) => Some(EventKind::Signal),
        Some(LogEventData::GarbageCollect(_)) => Some(EventKind::GarbageCollect),
        Some(LogEventData::FileDescriptorChange(_)) => Some(EventKind::FileDescriptorChange),
        Some(LogEventData::JniReferences(_)) => Some(EventKind::JniReferences),
        Some(LogEventData::Blocking(_)) => Some(EventKind::Blocking),
        None => None,
    }
}

impl LogEvent {
    /// The kind of this event, if it carries data.
    pub fn event_kind(&self) -> (k: Option<EventKind>)
        ensures
            k == spec_log_event_kind(*self),
    {
        match &self.log_event_data {
            Some(LogEventData::Write(_)) => Some(EventKind::Write),
            Some(LogEventData::Signal(_)) => Some(EventKind::Signal),
            Some(LogEventData::GarbageCollect(_)) => Some(EventKind::GarbageCollect),
            Some(LogEventData::FileDescriptorChange(_)) => Some(EventKind::FileDescriptorChange),
            Some(LogEventData::JniReferences(_)) => Some(EventKind::JniReferences),
            Some(LogEventData::Blocking(_)) => Some(EventKind::Blocking),
            None => None,
        }
    }
}

} // verus!
