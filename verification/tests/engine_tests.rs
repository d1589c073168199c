//! Transmission engine tests: request validation, reply shapes simple
//! and structured, and the chunk framing laws on concrete values.

use nbd_rs::chunks::{ChunkPayload, CmdType, StatusDescriptor, TransmissionRequest};
use nbd_rs::directory::Export;
use nbd_rs::engine::{
    build_reply, descriptor, encode_reply, result_matches_request, validate_request, EngineReply,
    StorageOp, StorageResult,
};
use nbd_rs::flags::{CmdFlags, TransmissionFlags};

fn flags_rw() -> TransmissionFlags {
    TransmissionFlags {
        read_only: false,
        send_flush: true,
        send_fua: true,
        rotational: false,
        send_trim: true,
        send_write_zeroes: true,
        send_df: true,
    }
}

fn export(size: u64, read_only: bool) -> Export {
    Export {
        name: b"disk0".to_vec(),
        size_bytes: size,
        flags: TransmissionFlags { read_only, ..flags_rw() },
        min_block_size: 1,
        preferred_block_size: 4096,
        max_block_size: 0x2000000,
        contexts: vec![b"base:allocation".to_vec()],
    }
}

fn req(cmd: CmdType, offset: u64, length: u32, flags: CmdFlags, data: Vec<u8>) -> TransmissionRequest {
    TransmissionRequest { flags, cmd, handle: 0xabcd, offset, length, data }
}

#[test]
fn out_of_range_request_is_einval_and_connection_stays_usable() {
    let e = export(1 << 20, false);
    // offset + length exceeds the export size.
    let r = req(CmdType::Read, (1 << 20) - 4096 + 1, 4096, CmdFlags::none(), vec![]);
    assert_eq!(validate_request(&r, &e).unwrap_err(), 22);
    // The engine only returns an error value; a following request on
    // the same session validates normally.
    let r = req(CmdType::Read, 0, 4096, CmdFlags::none(), vec![]);
    assert!(matches!(
        validate_request(&r, &e).unwrap(),
        StorageOp::Read { offset: 0, length: 4096, df: false }
    ));
}

#[test]
fn offset_past_end_is_einval() {
    let e = export(4096, false);
    let r = req(CmdType::Write, 8192, 4, CmdFlags::none(), vec![0, 0, 0, 0]);
    assert_eq!(validate_request(&r, &e).unwrap_err(), 22);
}

#[test]
fn write_to_read_only_export_is_eperm() {
    let e = export(1 << 20, true);
    let r = req(CmdType::Write, 0, 4, CmdFlags::none(), vec![1, 2, 3, 4]);
    assert_eq!(validate_request(&r, &e).unwrap_err(), 1);
    let r = req(CmdType::Trim, 0, 4096, CmdFlags::none(), vec![]);
    assert_eq!(validate_request(&r, &e).unwrap_err(), 1);
    let r = req(CmdType::WriteZeroes, 0, 4096, CmdFlags::none(), vec![]);
    assert_eq!(validate_request(&r, &e).unwrap_err(), 1);
    // Reads are still allowed.
    let r = req(CmdType::Read, 0, 4096, CmdFlags::none(), vec![]);
    assert!(validate_request(&r, &e).is_ok());
}

#[test]
fn unknown_command_is_einval() {
    let e = export(1 << 20, false);
    let r = req(CmdType::Unknown(5), 0, 0, CmdFlags::none(), vec![]);
    assert_eq!(validate_request(&r, &e).unwrap_err(), 22);
}

#[test]
fn disconnect_and_flush_validate_unconditionally() {
    let e = export(1 << 20, true);
    let r = req(CmdType::Disconnect, 0, 0, CmdFlags::none(), vec![]);
    assert!(matches!(validate_request(&r, &e).unwrap(), StorageOp::Disconnect));
    let r = req(CmdType::Flush, 0, 0, CmdFlags::none(), vec![]);
    assert!(matches!(validate_request(&r, &e).unwrap(), StorageOp::Flush));
}

#[test]
fn request_flags_are_carried_into_the_operation() {
    let e = export(1 << 20, false);
    let f = CmdFlags { fua: true, no_hole: true, df: false, req_one: false, fast_zero: true };
    let r = req(CmdType::WriteZeroes, 0, 4096, f, vec![]);
    match validate_request(&r, &e).unwrap() {
        StorageOp::WriteZeroes { offset, length, fua, no_hole, fast_zero } => {
            assert_eq!(offset, 0);
            assert_eq!(length, 4096);
            assert!(fua && no_hole && fast_zero);
        },
        _ => panic!("wrong operation"),
    }
    let f = CmdFlags { fua: true, no_hole: false, df: false, req_one: false, fast_zero: false };
    let r = req(CmdType::Write, 16, 2, f, vec![7, 7]);
    match validate_request(&r, &e).unwrap() {
        StorageOp::Write { offset, data, fua } => {
            assert_eq!(offset, 16);
            assert_eq!(data, vec![7, 7]);
            assert!(fua);
        },
        _ => panic!("wrong operation"),
    }
}

#[test]
fn simple_reply_for_read_when_structured_disabled() {
    let r = req(CmdType::Read, 0, 3, CmdFlags::none(), vec![]);
    let out = build_reply(false, 1, &r, &StorageResult::Data(vec![1, 2, 3]));
    match out {
        EngineReply::Simple(s) => {
            assert_eq!(s.error, 0);
            assert_eq!(s.handle, 0xabcd);
            assert_eq!(s.data, vec![1, 2, 3]);
        },
        _ => panic!("expected a simple reply"),
    }
}

#[test]
fn structured_read_is_one_done_chunk() {
    let r = req(CmdType::Read, 512, 3, CmdFlags::none(), vec![]);
    let out = build_reply(true, 1, &r, &StorageResult::Data(vec![1, 2, 3]));
    match out {
        EngineReply::Chunks(v) => {
            assert_eq!(v.len(), 1);
            assert!(v[0].done);
            assert_eq!(v[0].handle, 0xabcd);
            match &v[0].payload {
                ChunkPayload::OffsetData { offset, data } => {
                    assert_eq!(*offset, 512);
                    assert_eq!(data, &vec![1, 2, 3]);
                },
                _ => panic!("wrong payload kind"),
            }
        },
        _ => panic!("expected chunks"),
    }
}

#[test]
fn structured_failure_is_one_error_chunk() {
    let r = req(CmdType::Read, 0, 4, CmdFlags::none(), vec![]);
    let out = build_reply(true, 1, &r, &StorageResult::Failed(5));
    match out {
        EngineReply::Chunks(v) => {
            assert_eq!(v.len(), 1);
            assert!(v[0].done);
            assert_eq!(v[0].handle, 0xabcd);
            match &v[0].payload {
                ChunkPayload::ErrorDetail { error, message } => {
                    assert_eq!(*error, 5);
                    assert!(message.is_empty());
                },
                _ => panic!("wrong payload kind"),
            }
        },
        _ => panic!("expected chunks"),
    }
}

#[test]
fn simple_failure_when_structured_disabled() {
    let r = req(CmdType::Write, 0, 2, CmdFlags::none(), vec![1, 2]);
    let out = build_reply(false, 1, &r, &StorageResult::Failed(28));
    match out {
        EngineReply::Simple(s) => {
            assert_eq!(s.error, 28);
            assert_eq!(s.handle, 0xabcd);
            assert!(s.data.is_empty());
        },
        _ => panic!("expected a simple reply"),
    }
}

#[test]
fn write_success_is_simple_even_with_structured_replies() {
    let r = req(CmdType::Write, 0, 2, CmdFlags::none(), vec![1, 2]);
    let out = build_reply(true, 1, &r, &StorageResult::Done);
    assert!(matches!(out, EngineReply::Simple(_)));
}

#[test]
fn block_status_two_runs_two_chunks_second_done() {
    // Scenario: BlockStatus for offset 0, length 8192, storage reports
    // a 4096-byte data run then a 4096-byte hole: two chunks, the
    // second DONE-flagged, both carrying the request handle.
    let r = req(CmdType::BlockStatus, 0, 8192, CmdFlags::none(), vec![]);
    let status = StorageResult::Status(vec![descriptor(4096, false), descriptor(4096, true)]);
    let out = build_reply(true, 1, &r, &status);
    match out {
        EngineReply::Chunks(v) => {
            assert_eq!(v.len(), 2);
            assert!(!v[0].done);
            assert!(v[1].done);
            assert_eq!(v[0].handle, 0xabcd);
            assert_eq!(v[1].handle, 0xabcd);
            match &v[0].payload {
                ChunkPayload::BlockStatus { context_id, descriptors } => {
                    assert_eq!(*context_id, 1);
                    assert_eq!(descriptors.len(), 1);
                    assert_eq!(descriptors[0], StatusDescriptor { length: 4096, status: 0 });
                },
                _ => panic!("wrong payload kind"),
            }
            match &v[1].payload {
                ChunkPayload::BlockStatus { context_id, descriptors } => {
                    assert_eq!(*context_id, 1);
                    assert_eq!(descriptors[0], StatusDescriptor { length: 4096, status: 3 });
                },
                _ => panic!("wrong payload kind"),
            }
        },
        _ => panic!("expected chunks"),
    }
}

#[test]
fn req_one_limits_block_status_to_one_chunk() {
    let f = CmdFlags { fua: false, no_hole: false, df: false, req_one: true, fast_zero: false };
    let r = req(CmdType::BlockStatus, 0, 8192, f, vec![]);
    let status = StorageResult::Status(vec![descriptor(4096, false), descriptor(4096, true)]);
    let out = build_reply(true, 7, &r, &status);
    match out {
        EngineReply::Chunks(v) => {
            assert_eq!(v.len(), 1);
            assert!(v[0].done);
            match &v[0].payload {
                ChunkPayload::BlockStatus { context_id, descriptors } => {
                    assert_eq!(*context_id, 7);
                    assert_eq!(descriptors.len(), 1);
                    assert_eq!(descriptors[0].length, 4096);
                },
                _ => panic!("wrong payload kind"),
            }
        },
        _ => panic!("expected chunks"),
    }
}

#[test]
fn result_shape_check() {
    let r = req(CmdType::Read, 0, 3, CmdFlags::none(), vec![]);
    assert!(result_matches_request(&r, &StorageResult::Data(vec![1, 2, 3])));
    assert!(!result_matches_request(&r, &StorageResult::Data(vec![1, 2])));
    assert!(!result_matches_request(&r, &StorageResult::Done));
    assert!(result_matches_request(&r, &StorageResult::Failed(5)));
    let b = req(CmdType::BlockStatus, 0, 8192, CmdFlags::none(), vec![]);
    assert!(!result_matches_request(&b, &StorageResult::Status(vec![])));
    assert!(result_matches_request(&b, &StorageResult::Status(vec![descriptor(8192, true)])));
    let w = req(CmdType::Flush, 0, 0, CmdFlags::none(), vec![]);
    assert!(result_matches_request(&w, &StorageResult::Done));
}

#[test]
fn descriptor_status_bits() {
    assert_eq!(descriptor(4096, false), StatusDescriptor { length: 4096, status: 0 });
    // A hole also reads as zero: both bits set.
    assert_eq!(descriptor(4096, true), StatusDescriptor { length: 4096, status: 3 });
}

#[test]
fn encode_reply_frames_simple_and_chunks() {
    let r = req(CmdType::Read, 0, 2, CmdFlags::none(), vec![]);
    let out = build_reply(false, 1, &r, &StorageResult::Data(vec![0xaa, 0xbb]));
    let bytes = encode_reply(&out);
    // Simple reply: magic, error 0, handle, then the data.
    assert_eq!(&bytes[0..4], &[0x67, 0x44, 0x66, 0x98]);
    assert_eq!(&bytes[4..8], &[0, 0, 0, 0]);
    assert_eq!(bytes.len(), 18);
    assert_eq!(&bytes[16..], &[0xaa, 0xbb]);

    let out = build_reply(true, 1, &r, &StorageResult::Data(vec![0xaa, 0xbb]));
    let bytes = encode_reply(&out);
    // One chunk: header (20 bytes), offset (8), data (2).
    assert_eq!(bytes.len(), 30);
    assert_eq!(&bytes[0..4], &[0x66, 0x8e, 0x33, 0xef]);
    // DONE flag set, chunk type OFFSET_DATA.
    assert_eq!(&bytes[4..6], &[0, 1]);
    assert_eq!(&bytes[6..8], &[0, 1]);
}
