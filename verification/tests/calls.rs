use ziofa::calls::{
    generate_id, BlockingMainCall, CheckedCastError, JNICall, JNIMethodName, MainBlockingCause,
    SysSendmsgCall, SysSigquitCall, TryFromRaw, VfsWriteCall,
};

fn le32(v: u32) -> Vec<u8> {
    v.to_le_bytes().to_vec()
}

fn le64(v: u64) -> Vec<u8> {
    v.to_le_bytes().to_vec()
}

#[test]
fn generate_id_packs_pid_high_and_tgid_low() {
    assert_eq!(generate_id(1, 2), (1u64 << 32) | 2);
    assert_eq!(generate_id(0xdead, 0xbeef), 0x0000_dead_0000_beef);
    assert_eq!(generate_id(u32::MAX, u32::MAX), u64::MAX);
    assert_eq!(generate_id(0, 0), 0);
}

#[test]
fn generate_id_tells_pairs_apart() {
    assert_ne!(generate_id(1, 2), generate_id(2, 1));
    assert_ne!(generate_id(7, 0), generate_id(0, 7));
}

#[test]
fn constructors_keep_fields() {
    let v = VfsWriteCall::new(1, 2, 3, 4, 5);
    assert_eq!((v.pid, v.tid, v.begin_time_stamp, v.fp, v.bytes_written), (1, 2, 3, 4, 5));
    let s = SysSendmsgCall::new(6, 7, 8, 9, 10);
    assert_eq!((s.pid, s.tid, s.begin_time_stamp, s.fd, s.duration_nano_sec), (6, 7, 8, 9, 10));
    let q = SysSigquitCall::new(11, 12, 13, 14);
    assert_eq!((q.pid, q.tid, q.time_stamp, q.target_pid), (11, 12, 13, 14));
    let b = BlockingMainCall::new(15, 16, 17, 18, MainBlockingCause::Poll);
    assert_eq!((b.pid, b.tid, b.begin_time_stamp, b.duration_nano_sec), (15, 16, 17, 18));
    assert_eq!(b.blocking_cause, MainBlockingCause::Poll);
}

#[test]
fn vfs_write_call_reads_little_endian_fields() {
    let mut raw = Vec::new();
    raw.extend(le32(100));
    raw.extend(le32(101));
    raw.extend(le64(0x0102_0304_0506_0708));
    raw.extend(le64(42));
    raw.extend(le64(4096));
    let call = VfsWriteCall::try_from_raw(&raw).unwrap();
    assert_eq!(call.pid, 100);
    assert_eq!(call.tid, 101);
    assert_eq!(call.begin_time_stamp, 0x0102_0304_0506_0708);
    assert_eq!(call.fp, 42);
    assert_eq!(call.bytes_written, 4096);
}

#[test]
fn wrong_size_is_refused() {
    let raw = vec![0u8; 31];
    assert_eq!(VfsWriteCall::try_from_raw(&raw).unwrap_err(), CheckedCastError::SizeMismatch);
    assert_eq!(SysSendmsgCall::try_from_raw(&raw).unwrap_err(), CheckedCastError::SizeMismatch);
    assert_eq!(JNICall::try_from_raw(&raw).unwrap_err(), CheckedCastError::SizeMismatch);
    assert_eq!(SysSigquitCall::try_from_raw(&raw).unwrap_err(), CheckedCastError::SizeMismatch);
}

#[test]
fn sys_sendmsg_and_sigquit_calls() {
    let mut raw = Vec::new();
    raw.extend(le32(1));
    raw.extend(le32(2));
    raw.extend(le64(3));
    raw.extend(le64(4));
    raw.extend(le64(5));
    let call = SysSendmsgCall::try_from_raw(&raw).unwrap();
    assert_eq!((call.pid, call.tid, call.begin_time_stamp, call.fd, call.duration_nano_sec), (1, 2, 3, 4, 5));
    let sig = SysSigquitCall::try_from_raw(&raw[..24]).unwrap();
    assert_eq!((sig.pid, sig.tid, sig.time_stamp, sig.target_pid), (1, 2, 3, 4));
}

#[test]
fn jni_call_tag_selects_method() {
    let mut raw = Vec::new();
    raw.extend(le32(9));
    raw.extend(le32(10));
    raw.extend(le64(11));
    raw.extend(vec![2u8, 0, 0, 0, 0, 0, 0, 0]);
    let call = JNICall::try_from_raw(&raw).unwrap();
    assert_eq!((call.pid, call.tid, call.begin_time_stamp), (9, 10, 11));
    assert_eq!(call.method_name, JNIMethodName::AddGlobalRef);
    raw[16] = 3;
    assert_eq!(JNICall::try_from_raw(&raw).unwrap().method_name, JNIMethodName::DeleteGlobalRef);
    raw[16] = 4;
    assert_eq!(JNICall::try_from_raw(&raw).unwrap_err(), CheckedCastError::InvalidBitPattern);
}

#[test]
fn unaligned_buffers_are_refused() {
    let words = vec![0u64; 5];
    let bytes: &[u8] = bytemuck::cast_slice(&words);
    assert!(VfsWriteCall::try_from_raw(&bytes[8..40]).is_ok());
    assert_eq!(
        VfsWriteCall::try_from_raw(&bytes[1..33]).unwrap_err(),
        CheckedCastError::TargetAlignmentGreaterAndInputNotAligned
    );
    assert_eq!(
        SysSigquitCall::try_from_raw(&bytes[4..28]).unwrap_err(),
        CheckedCastError::TargetAlignmentGreaterAndInputNotAligned
    );
    // The size is checked first.
    assert_eq!(VfsWriteCall::try_from_raw(&bytes[1..30]).unwrap_err(), CheckedCastError::SizeMismatch);
}

#[test]
fn reading_with_a_known_alignment() {
    let mut raw = vec![0u8; 24];
    raw[0] = 7;
    raw[16] = 1;
    let call = JNICall::try_from_aligned(&raw, true).unwrap();
    assert_eq!(call.pid, 7);
    assert_eq!(call.method_name, JNIMethodName::DeleteLocalRef);
    assert_eq!(
        JNICall::try_from_aligned(&raw, false).unwrap_err(),
        CheckedCastError::TargetAlignmentGreaterAndInputNotAligned
    );
    raw[16] = 9;
    assert_eq!(JNICall::try_from_aligned(&raw, false).unwrap_err(), CheckedCastError::TargetAlignmentGreaterAndInputNotAligned);
    assert_eq!(JNICall::try_from_aligned(&raw, true).unwrap_err(), CheckedCastError::InvalidBitPattern);
}
