//! Records that the eBPF programs push into their ring buffers, and how their
//! raw bytes are read back.
use vstd::prelude::*;

verus! {

/// A `vfs_write` call observed in the kernel.
#[derive(Debug, Copy, Clone)]
pub struct VfsWriteCall {
    pub pid: u32,
    pub tid: u32,
    pub begin_time_stamp: u64,
    pub fp: u64,
    pub bytes_written: usize,
}

impl VfsWriteCall {
    pub fn new(pid: u32, tid: u32, begin_time_stamp: u64, fp: u64, bytes_written: usize) -> (call:
        Self)
        ensures
            call.pid == pid,
            call.tid == tid,
            call.begin_time_stamp == begin_time_stamp,
            call.fp == fp,
            call.bytes_written == bytes_written,
    {
        Self { pid, tid, begin_time_stamp, fp, bytes_written }
    }
}

/// A `sendmsg` system call and how long it took.
#[derive(Debug, Copy, Clone)]
pub struct SysSendmsgCall {
    pub pid: u32,
    pub tid: u32,
    pub begin_time_stamp: u64,
    pub fd: u64,
    /// in nanoseconds
    pub duration_nano_sec: u64,
}

impl SysSendmsgCall {
    pub fn new(pid: u32, tid: u32, begin_time_stamp: u64, fd: u64, duration_nano_sec: u64) -> (call:
        Self)
        ensures
            call.pid == pid,
            call.tid == tid,
            call.begin_time_stamp == begin_time_stamp,
            call.fd == fd,
            call.duration_nano_sec == duration_nano_sec,
    {
        Self { pid, tid, begin_time_stamp, fd, duration_nano_sec }
    }
}

/// The JNI reference functions that are traced.
#[derive(Debug, Copy, Clone, PartialEq, Eq, Structural)]
pub enum JNIMethodName {
    AddLocalRef,
    DeleteLocalRef,
    AddGlobalRef,
    DeleteGlobalRef,
}

/// A call of one of the JNI reference functions.
#[derive(Debug, Copy, Clone)]
pub struct JNICall {
    pub pid: u32,
    pub tid: u32,
    pub begin_time_stamp: u64,
    pub method_name: JNIMethodName,
}

/// A SIGQUIT sent by `pid` to `target_pid`.
#[derive(Debug, Copy, Clone)]
pub struct SysSigquitCall {
    pub pid: u32,
    pub tid: u32,
    pub time_stamp: u64,
    /// the pid that gets the SIGQUIT signal
    pub target_pid: u64,
}

impl SysSigquitCall {
    pub fn new(pid: u32, tid: u32, time_stamp: u64, target_pid: u64) -> (call: Self)
        ensures
            call.pid == pid,
            call.tid == tid,
            call.time_stamp == time_stamp,
            call.target_pid == target_pid,
    {
        Self { pid, tid, time_stamp, target_pid }
    }
}

/// Why the main thread of an app was blocked.
#[derive(Debug, Copy, Clone, PartialEq, Eq, Structural)]
pub enum MainBlockingCause {
    Futex,
    Poll,
    Select,
    VfsWrite,
}

/// A stretch of time in which the main thread of an app was blocked.
#[derive(Debug, Copy, Clone)]
pub struct BlockingMainCall {
    pub pid: u32,
    pub tid: u32,
    pub begin_time_stamp: u64,
    /// in nanoseconds
    pub duration_nano_sec: u64,
    pub blocking_cause: MainBlockingCause,
}

impl BlockingMainCall {
    pub fn new(
        pid: u32,
        tid: u32,
        begin_time_stamp: u64,
        duration_nano_sec: u64,
        blocking_cause: MainBlockingCause,
    ) -> (call: Self)
        ensures
            call.pid == pid,
            call.tid == tid,
            call.begin_time_stamp == begin_time_stamp,
            call.duration_nano_sec == duration_nano_sec,
            call.blocking_cause == blocking_cause,
    {
        Self { pid, tid, begin_time_stamp, duration_nano_sec, blocking_cause }
    }
}

/// The id that `generate_id` builds from a pid and a thread group id.
pub open spec fn spec_generate_id(pid: u32, tgid: u32) -> int {
    pid * 0x1_0000_0000 + tgid
}

/// A unique id from pid and tgid: the pid in the upper 32 bits, the tgid in
/// the lower 32 bits.
pub fn generate_id(pid: u32, tgid: u32) -> (id: u64)
    ensures
        id == spec_generate_id(pid, tgid),
        id >> 32u64 == pid,
        id & 0xffff_ffffu64 == tgid,
{
    let pid_u64 = pid as u64;
    let tgid_u64 = tgid as u64;
    let id = (pid_u64 << 32u64) | tgid_u64;
    assert(id == pid_u64 * 0x1_0000_0000 + tgid_u64 && id >> 32u64 == pid_u64 && id
        & 0xffff_ffffu64 == tgid_u64) by (bit_vector)
        requires
            pid_u64 < 0x1_0000_0000,
            tgid_u64 < 0x1_0000_0000,
            id == (pid_u64 << 32u64) | tgid_u64,
    ;
    id
}

/// Two distinct (pid, tgid) pairs never share an id.
pub proof fn lemma_generate_id_injective(p1: u32, t1: u32, p2: u32, t2: u32)
    ensures
        spec_generate_id(p1, t1) == spec_generate_id(p2, t2) ==> p1 == p2 && t1 == t2,
{
}

// ---------------------------------------------------------------------------
// Reading records back from the raw bytes of a ring buffer entry.
//
// The records are `repr(C)` structs written by the eBPF programs on a 64-bit
// little-endian machine; the functions below read each field from its offset.

/// Why a byte buffer could not be read as a record.
#[derive(Debug, Copy, Clone, PartialEq, Eq, Structural)]
pub enum CheckedCastError {
    /// The buffer does not have the size of the record.
    SizeMismatch,
    /// The buffer does not start at an address aligned for the record.
    TargetAlignmentGreaterAndInputNotAligned,
    /// A field holds a value that its type does not allow (an enum tag out of range).
    InvalidBitPattern,
}

/// The little-endian value of the `n` bytes of `s` starting at `off`.
pub open spec fn le_bytes(s: Seq<u8>, off: int, n: nat) -> nat
    decreases n,
{
    if n == 0 {
        0
    } else {
        s[off] as nat + 256 * le_bytes(s, off + 1, (n - 1) as nat)
    }
}

pub(crate) fn read_u32(raw: &[u8], off: usize) -> (v: u32)
    requires
        off + 4 <= raw@.len(),
    ensures
        v == le_bytes(raw@, off as int, 4),
{
    let v = raw[off] as u32 + 256 * (raw[off + 1] as u32 + 256 * (raw[off + 2] as u32 + 256 * (
    raw[off + 3] as u32)));
    proof {
        reveal_with_fuel(le_bytes, 5);
    }
    v
}

pub(crate) fn read_u64(raw: &[u8], off: usize) -> (v: u64)
    requires
        off + 8 <= raw@.len(),
    ensures
        v == le_bytes(raw@, off as int, 8),
{
    let v = raw[off] as u64 + 256 * (raw[off + 1] as u64 + 256 * (raw[off + 2] as u64 + 256 * (
    raw[off + 3] as u64 + 256 * (raw[off + 4] as u64 + 256 * (raw[off + 5] as u64 + 256 * (raw[off
        + 6] as u64 + 256 * (raw[off + 7] as u64)))))));
    proof {
        reveal_with_fuel(le_bytes, 9);
    }
    v
}

/// Size in bytes of a `VfsWriteCall` record.
pub const VFS_WRITE_CALL_SIZE: usize = 32;
/// Size in bytes of a `SysSendmsgCall` record.
pub const SYS_SENDMSG_CALL_SIZE: usize = 32;
/// Size in bytes of a `JNICall` record.
pub const JNI_CALL_SIZE: usize = 24;
/// Size in bytes of a `SysSigquitCall` record.
pub const SYS_SIGQUIT_CALL_SIZE: usize = 24;

/// The `VfsWriteCall` whose record is `s`.
pub open spec fn vfs_write_call_from(s: Seq<u8>) -> VfsWriteCall {
    VfsWriteCall {
        pid: le_bytes(s, 0, 4) as u32,
        tid: le_bytes(s, 4, 4) as u32,
        begin_time_stamp: le_bytes(s, 8, 8) as u64,
        fp: le_bytes(s, 16, 8) as u64,
        bytes_written: le_bytes(s, 24, 8) as usize,
    }
}

/// The `SysSendmsgCall` whose record is `s`.
pub open spec fn sys_sendmsg_call_from(s: Seq<u8>) -> SysSendmsgCall {
    SysSendmsgCall {
        pid: le_bytes(s, 0, 4) as u32,
        tid: le_bytes(s, 4, 4) as u32,
        begin_time_stamp: le_bytes(s, 8, 8) as u64,
        fd: le_bytes(s, 16, 8) as u64,
        duration_nano_sec: le_bytes(s, 24, 8) as u64,
    }
}

/// The JNI method whose tag is `tag`, if the tag is one.
pub open spec fn jni_method_from_tag(tag: u8) -> Option<JNIMethodName> {
    if tag == 0 {
        Some(JNIMethodName::AddLocalRef)
    } else if tag == 1 {
        Some(JNIMethodName::DeleteLocalRef)
    } else if tag == 2 {
        Some(JNIMethodName::AddGlobalRef)
    } else if tag == 3 {
        Some(JNIMethodName::DeleteGlobalRef)
    } else {
        None
    }
}

/// The `JNICall` whose record is `s`, given a valid method tag.
pub open spec fn jni_call_from(s: Seq<u8>, method_name: JNIMethodName) -> JNICall {
    JNICall {
        pid: le_bytes(s, 0, 4) as u32,
        tid: le_bytes(s, 4, 4) as u32,
        begin_time_stamp: le_bytes(s, 8, 8) as u64,
        method_name,
    }
}

/// The `SysSigquitCall` whose record is `s`.
pub open spec fn sys_sigquit_call_from(s: Seq<u8>) -> SysSigquitCall {
    SysSigquitCall {
        pid: le_bytes(s, 0, 4) as u32,
        tid: le_bytes(s, 4, 4) as u32,
        time_stamp: le_bytes(s, 8, 8) as u64,
        target_pid: le_bytes(s, 16, 8) as u64,
    }
}

/// Whether `raw` starts at an address where a record can be read in place.
/// It calls `bytemuck::try_cast_slice` from bytes to `u64`, which refuses a
/// slice whose start is not aligned for `u64` and, the length being a
/// multiple of eight, nothing else; every record here has the alignment of
/// `u64`. Nothing is stated of the result: it depends on where the buffer
/// lies in memory.
#[verifier::external_body]
pub(crate) fn starts_aligned(raw: &[u8]) -> bool
    requires
        raw@.len() % 8 == 0,
{
    bytemuck::try_cast_slice::<u8, u64>(raw).is_ok()
}

/// A record type that can be read back from the raw bytes of a ring buffer entry.
pub trait TryFromRaw: Sized {
    /// What reading `raw` gives, `aligned` telling whether the buffer starts
    /// at an address aligned for the record: the record, or why there is none.
    spec fn spec_try_from_raw(raw: Seq<u8>, aligned: bool) -> Result<Self, CheckedCastError>;

    /// Reads `raw`, given whether it starts at an aligned address.
    fn try_from_aligned(raw: &[u8], aligned: bool) -> (res: Result<Self, CheckedCastError>)
        ensures
            res == Self::spec_try_from_raw(raw@, aligned),
    ;

    /// Reads `raw` in place: a buffer of the wrong size, or of the right
    /// size at an unaligned address, is refused.
    fn try_from_raw(raw: &[u8]) -> (res: Result<Self, CheckedCastError>)
        ensures
            exists|aligned: bool| res == Self::spec_try_from_raw(raw@, aligned),
    {
        if raw.len() % 8 == 0 {
            let aligned = starts_aligned(raw);
            Self::try_from_aligned(raw, aligned)
        } else {
            // No record has such a length: the buffer is refused for its size.
            Self::try_from_aligned(raw, true)
        }
    }
}

impl TryFromRaw for VfsWriteCall {
    open spec fn spec_try_from_raw(raw: Seq<u8>, aligned: bool) -> Result<Self, CheckedCastError> {
        if raw.len() != VFS_WRITE_CALL_SIZE {
            Err(CheckedCastError::SizeMismatch)
        } else if !aligned {
            Err(CheckedCastError::TargetAlignmentGreaterAndInputNotAligned)
        } else {
            Ok(vfs_write_call_from(raw))
        }
    }

    fn try_from_aligned(raw: &[u8], aligned: bool) -> (res: Result<Self, CheckedCastError>) {
        if raw.len() != VFS_WRITE_CALL_SIZE {
            return Err(CheckedCastError::SizeMismatch);
        }
        if !aligned {
            return Err(CheckedCastError::TargetAlignmentGreaterAndInputNotAligned);
        }
        let bytes_written = read_u64(raw, 24);
        Ok(VfsWriteCall {
            pid: read_u32(raw, 0),
            tid: read_u32(raw, 4),
            begin_time_stamp: read_u64(raw, 8),
            fp: read_u64(raw, 16),
            bytes_written: bytes_written as usize,
        })
    }
}

impl TryFromRaw for SysSendmsgCall {
    open spec fn spec_try_from_raw(raw: Seq<u8>, aligned: bool) -> Result<Self, CheckedCastError> {
        if raw.len() != SYS_SENDMSG_CALL_SIZE {
            Err(CheckedCastError::SizeMismatch)
        } else if !aligned {
            Err(CheckedCastError::TargetAlignmentGreaterAndInputNotAligned)
        } else {
            Ok(sys_sendmsg_call_from(raw))
        }
    }

    fn try_from_aligned(raw: &[u8], aligned: bool) -> (res: Result<Self, CheckedCastError>) {
        if raw.len() != SYS_SENDMSG_CALL_SIZE {
            return Err(CheckedCastError::SizeMismatch);
        }
        if !aligned {
            return Err(CheckedCastError::TargetAlignmentGreaterAndInputNotAligned);
        }
        Ok(SysSendmsgCall {
            pid: read_u32(raw, 0),
            tid: read_u32(raw, 4),
            begin_time_stamp: read_u64(raw, 8),
            fd: read_u64(raw, 16),
            duration_nano_sec: read_u64(raw, 24),
        })
    }
}

impl TryFromRaw for JNICall {
    open spec fn spec_try_from_raw(raw: Seq<u8>, aligned: bool) -> Result<Self, CheckedCastError> {
        if raw.len() != JNI_CALL_SIZE {
            Err(CheckedCastError::SizeMismatch)
        } else if !aligned {
            Err(CheckedCastError::TargetAlignmentGreaterAndInputNotAligned)
        } else {
            match jni_method_from_tag(raw[16]) {
                Some(m) => Ok(jni_call_from(raw, m)),
                None => Err(CheckedCastError::InvalidBitPattern),
            }
        }
    }

    fn try_from_aligned(raw: &[u8], aligned: bool) -> (res: Result<Self, CheckedCastError>) {
        if raw.len() != JNI_CALL_SIZE {
            return Err(CheckedCastError::SizeMismatch);
        }
        if !aligned {
            return Err(CheckedCastError::TargetAlignmentGreaterAndInputNotAligned);
        }
        let tag = raw[16];
        let method_name = if tag == 0 {
            JNIMethodName::AddLocalRef
        } else if tag == 1 {
            JNIMethodName::DeleteLocalRef
        } else if tag == 2 {
            JNIMethodName::AddGlobalRef
        } else if tag == 3 {
            JNIMethodName::DeleteGlobalRef
        } else {
            return Err(CheckedCastError::InvalidBitPattern);
        };
        Ok(JNICall {
            pid: read_u32(raw, 0),
            tid: read_u32(raw, 4),
            begin_time_stamp: read_u64(raw, 8),
            method_name,
        })
    }
}

impl TryFromRaw for SysSigquitCall {
    open spec fn spec_try_from_raw(raw: Seq<u8>, aligned: bool) -> Result<Self, CheckedCastError> {
        if raw.len() != SYS_SIGQUIT_CALL_SIZE {
            Err(CheckedCastError::SizeMismatch)
        } else if !aligned {
            Err(CheckedCastError::TargetAlignmentGreaterAndInputNotAligned)
        } else {
            Ok(sys_sigquit_call_from(raw))
        }
    }

    fn try_from_aligned(raw: &[u8], aligned: bool) -> (res: Result<Self, CheckedCastError>) {
        if raw.len() != SYS_SIGQUIT_CALL_SIZE {
            return Err(CheckedCastError::SizeMismatch);
        }
        if !aligned {
            return Err(CheckedCastError::TargetAlignmentGreaterAndInputNotAligned);
        }
        Ok(SysSigquitCall {
            pid: read_u32(raw, 0),
            tid: read_u32(raw, 4),
            time_stamp: read_u64(raw, 8),
            target_pid: read_u64(raw, 16),
        })
    }
}

} // verus!
