//! Wire codec tests: exact bytes, round trips on concrete values, and
//! every decode error.

use nbd_rs::codec::{
    decode_client_flags, decode_meta_request, decode_server_handshake, encode_client_flags,
    encode_server_handshake, ClientOptionRequest, ClientOptions, DecodeError, OptionCode,
    OptionReply, ReplyType,
};
use nbd_rs::chunks::{
    ChunkPayload, CmdType, SimpleReply, StatusDescriptor, StructuredReplyChunk,
    TransmissionRequest,
};
use nbd_rs::flags::{ClientHandshakeFlags, CmdFlags, HandshakeFlags, TransmissionFlags};

fn push_u32(out: &mut Vec<u8>, v: u32) {
    out.extend_from_slice(&v.to_be_bytes());
}

fn push_u64(out: &mut Vec<u8>, v: u64) {
    out.extend_from_slice(&v.to_be_bytes());
}

#[test]
fn server_handshake_exact_bytes() {
    let f = HandshakeFlags { fixed_newstyle: true, no_zeroes: true };
    let b = encode_server_handshake(&f);
    assert_eq!(b.len(), 18);
    // "NBDMAGIC" then "IHAVEOPT" then flags 0x0003.
    assert_eq!(&b[0..8], b"NBDMAGIC");
    assert_eq!(&b[8..16], b"IHAVEOPT");
    assert_eq!(&b[16..18], &[0x00, 0x03]);
}

#[test]
fn server_handshake_round_trip() {
    let f = HandshakeFlags { fixed_newstyle: true, no_zeroes: false };
    let b = encode_server_handshake(&f);
    let (g, n) = decode_server_handshake(&b).unwrap();
    assert_eq!(n, 18);
    assert_eq!(g, f);
}

#[test]
fn server_handshake_bad_magic() {
    let mut b = vec![0u8; 18];
    b[0] = 0x4e;
    assert_eq!(decode_server_handshake(&b).unwrap_err(), DecodeError::BadMagic);
    assert_eq!(decode_server_handshake(&vec![0u8; 5]).unwrap_err(), DecodeError::Incomplete);
}

#[test]
fn client_flags_round_trip() {
    let c = ClientOptions {
        flags: ClientHandshakeFlags { fixed_newstyle: true, no_zeroes: true },
    };
    let b = encode_client_flags(&c);
    assert_eq!(b, vec![0, 0, 0, 3]);
    let (d, n) = decode_client_flags(&b).unwrap();
    assert_eq!(n, 4);
    assert_eq!(d, c);
}

#[test]
fn option_code_numbers() {
    assert_eq!(OptionCode::ExportName.number(), 1);
    assert_eq!(OptionCode::Abort.number(), 2);
    assert_eq!(OptionCode::List.number(), 3);
    assert_eq!(OptionCode::StartTls.number(), 5);
    assert_eq!(OptionCode::Info.number(), 6);
    assert_eq!(OptionCode::Go.number(), 7);
    assert_eq!(OptionCode::StructuredReply.number(), 8);
    assert_eq!(OptionCode::ListMetaContext.number(), 9);
    assert_eq!(OptionCode::SetMetaContext.number(), 10);
    assert_eq!(OptionCode::from_number(7), OptionCode::Go);
    assert_eq!(OptionCode::from_number(4), OptionCode::Unknown(4));
    assert_eq!(OptionCode::from_number(0xdead), OptionCode::Unknown(0xdead));
}

#[test]
fn reply_type_error_flag() {
    assert!(!ReplyType::Ack.is_error());
    assert!(!ReplyType::Server.is_error());
    assert!(!ReplyType::Info.is_error());
    assert!(!ReplyType::MetaContext.is_error());
    assert!(ReplyType::ErrUnsupported.is_error());
    assert!(ReplyType::ErrPolicy.is_error());
    assert!(ReplyType::ErrInvalid.is_error());
    assert!(ReplyType::ErrUnknown.is_error());
    // The error variants carry the high bit on the wire.
    assert_eq!(ReplyType::ErrUnsupported.number(), 0x80000001);
    assert_eq!(ReplyType::from_number(1), Some(ReplyType::Ack));
    assert_eq!(ReplyType::from_number(77), None);
}

#[test]
fn option_request_round_trip() {
    let req = ClientOptionRequest { option: OptionCode::ExportName, data: b"disk0".to_vec() };
    let b = req.encode();
    assert_eq!(b.len(), 21);
    assert_eq!(&b[0..8], b"IHAVEOPT");
    assert_eq!(&b[8..12], &[0, 0, 0, 1]);
    assert_eq!(&b[12..16], &[0, 0, 0, 5]);
    assert_eq!(&b[16..], b"disk0");
    let (back, n) = ClientOptionRequest::decode(&b).unwrap();
    assert_eq!(n, 21);
    assert_eq!(back.option, OptionCode::ExportName);
    assert_eq!(back.data, b"disk0".to_vec());
}

#[test]
fn option_request_decode_errors() {
    // Too short for a header.
    assert_eq!(
        ClientOptionRequest::decode(&vec![0u8; 10]).unwrap_err(),
        DecodeError::Incomplete
    );
    // Wrong magic.
    let mut b = vec![0u8; 16];
    b[0] = 1;
    assert_eq!(ClientOptionRequest::decode(&b).unwrap_err(), DecodeError::BadMagic);
    // A length field over the bound is rejected before any allocation.
    let mut b: Vec<u8> = Vec::new();
    b.extend_from_slice(b"IHAVEOPT");
    push_u32(&mut b, 1);
    push_u32(&mut b, 0xffff_ffff);
    assert_eq!(ClientOptionRequest::decode(&b).unwrap_err(), DecodeError::TooLarge);
    // A truncated payload is incomplete.
    let mut b: Vec<u8> = Vec::new();
    b.extend_from_slice(b"IHAVEOPT");
    push_u32(&mut b, 1);
    push_u32(&mut b, 5);
    b.extend_from_slice(b"di");
    assert_eq!(ClientOptionRequest::decode(&b).unwrap_err(), DecodeError::Incomplete);
}

#[test]
fn option_reply_round_trip() {
    let rep = OptionReply {
        option: OptionCode::List,
        reply_type: ReplyType::Server,
        data: vec![0, 0, 0, 1, b'a'],
    };
    let b = rep.encode();
    let (back, n) = OptionReply::decode(&b).unwrap();
    assert_eq!(n, b.len());
    assert_eq!(back.option, OptionCode::List);
    assert_eq!(back.reply_type, ReplyType::Server);
    assert_eq!(back.data, vec![0, 0, 0, 1, b'a']);
}

#[test]
fn option_reply_unknown_type_is_invalid() {
    let rep = OptionReply { option: OptionCode::List, reply_type: ReplyType::Ack, data: vec![] };
    let mut b = rep.encode();
    // Overwrite the reply-type field with a value outside the set.
    b[12] = 0x12;
    b[13] = 0x34;
    b[14] = 0;
    b[15] = 9;
    assert_eq!(OptionReply::decode(&b).unwrap_err(), DecodeError::Invalid);
}

#[test]
fn cmd_type_numbers() {
    assert_eq!(CmdType::Read.number(), 0);
    assert_eq!(CmdType::Write.number(), 1);
    assert_eq!(CmdType::Disconnect.number(), 2);
    assert_eq!(CmdType::Flush.number(), 3);
    assert_eq!(CmdType::Trim.number(), 4);
    assert_eq!(CmdType::WriteZeroes.number(), 6);
    assert_eq!(CmdType::BlockStatus.number(), 7);
    assert_eq!(CmdType::from_number(5), CmdType::Unknown(5));
    assert_eq!(CmdType::from_number(7), CmdType::BlockStatus);
}

#[test]
fn transmission_request_round_trip_read() {
    let req = TransmissionRequest {
        flags: CmdFlags { fua: false, no_hole: false, df: true, req_one: false, fast_zero: false },
        cmd: CmdType::Read,
        handle: 0x1122334455667788,
        offset: 4096,
        length: 512,
        data: vec![],
    };
    let b = req.encode();
    assert_eq!(b.len(), 28);
    assert_eq!(&b[0..4], &[0x25, 0x60, 0x95, 0x13]);
    let (back, n) = TransmissionRequest::decode(&b).unwrap();
    assert_eq!(n, 28);
    assert_eq!(back.flags, req.flags);
    assert_eq!(back.cmd, CmdType::Read);
    assert_eq!(back.handle, req.handle);
    assert_eq!(back.offset, 4096);
    assert_eq!(back.length, 512);
    assert!(back.data.is_empty());
}

#[test]
fn transmission_request_round_trip_write() {
    let req = TransmissionRequest {
        flags: CmdFlags { fua: true, no_hole: false, df: false, req_one: false, fast_zero: false },
        cmd: CmdType::Write,
        handle: 7,
        offset: 0,
        length: 4,
        data: vec![9, 8, 7, 6],
    };
    let b = req.encode();
    assert_eq!(b.len(), 32);
    let (back, n) = TransmissionRequest::decode(&b).unwrap();
    assert_eq!(n, 32);
    assert_eq!(back.cmd, CmdType::Write);
    assert_eq!(back.data, vec![9, 8, 7, 6]);
    assert!(back.flags.fua);
}

#[test]
fn transmission_request_decode_errors() {
    assert_eq!(
        TransmissionRequest::decode(&vec![0u8; 27]).unwrap_err(),
        DecodeError::Incomplete
    );
    let mut b = vec![0u8; 28];
    b[0] = 0xff;
    assert_eq!(TransmissionRequest::decode(&b).unwrap_err(), DecodeError::BadMagic);
    // Write whose inline data is missing.
    let req = TransmissionRequest {
        flags: CmdFlags::none(),
        cmd: CmdType::Write,
        handle: 1,
        offset: 0,
        length: 10,
        data: vec![0u8; 10],
    };
    let mut b = req.encode();
    b.truncate(30);
    assert_eq!(TransmissionRequest::decode(&b).unwrap_err(), DecodeError::Incomplete);
}

#[test]
fn simple_reply_round_trip() {
    let rep = SimpleReply { error: 0, handle: 42, data: vec![1, 2, 3] };
    let b = rep.encode();
    assert_eq!(&b[0..4], &[0x67, 0x44, 0x66, 0x98]);
    let (back, n) = SimpleReply::decode(&b, 3).unwrap();
    assert_eq!(n, 19);
    assert_eq!(back.error, 0);
    assert_eq!(back.handle, 42);
    assert_eq!(back.data, vec![1, 2, 3]);
}

#[test]
fn chunk_round_trip_offset_data() {
    let c = StructuredReplyChunk {
        done: true,
        handle: 99,
        payload: ChunkPayload::OffsetData { offset: 8192, data: vec![5, 6] },
    };
    let b = c.encode();
    assert_eq!(&b[0..4], &[0x66, 0x8e, 0x33, 0xef]);
    let (back, n) = StructuredReplyChunk::decode(&b).unwrap();
    assert_eq!(n, b.len());
    assert!(back.done);
    assert_eq!(back.handle, 99);
    match back.payload {
        ChunkPayload::OffsetData { offset, data } => {
            assert_eq!(offset, 8192);
            assert_eq!(data, vec![5, 6]);
        },
        _ => panic!("wrong payload kind"),
    }
}

#[test]
fn chunk_round_trip_offset_hole_and_none() {
    let c = StructuredReplyChunk {
        done: false,
        handle: 1,
        payload: ChunkPayload::OffsetHole { offset: 0, hole_size: 4096 },
    };
    let (back, _) = StructuredReplyChunk::decode(&c.encode()).unwrap();
    assert!(!back.done);
    match back.payload {
        ChunkPayload::OffsetHole { offset, hole_size } => {
            assert_eq!(offset, 0);
            assert_eq!(hole_size, 4096);
        },
        _ => panic!("wrong payload kind"),
    }
    let c = StructuredReplyChunk { done: true, handle: 2, payload: ChunkPayload::NoPayload };
    let (back, n) = StructuredReplyChunk::decode(&c.encode()).unwrap();
    assert_eq!(n, 20);
    assert!(matches!(back.payload, ChunkPayload::NoPayload));
}

#[test]
fn chunk_round_trip_block_status() {
    let c = StructuredReplyChunk {
        done: true,
        handle: 3,
        payload: ChunkPayload::BlockStatus {
            context_id: 1,
            descriptors: vec![
                StatusDescriptor { length: 4096, status: 0 },
                StatusDescriptor { length: 4096, status: 3 },
            ],
        },
    };
    let b = c.encode();
    let (back, _) = StructuredReplyChunk::decode(&b).unwrap();
    match back.payload {
        ChunkPayload::BlockStatus { context_id, descriptors } => {
            assert_eq!(context_id, 1);
            assert_eq!(descriptors.len(), 2);
            assert_eq!(descriptors[0], StatusDescriptor { length: 4096, status: 0 });
            assert_eq!(descriptors[1], StatusDescriptor { length: 4096, status: 3 });
        },
        _ => panic!("wrong payload kind"),
    }
}

#[test]
fn chunk_round_trip_error_detail() {
    let c = StructuredReplyChunk {
        done: true,
        handle: 4,
        payload: ChunkPayload::ErrorDetail { error: 5, message: b"io".to_vec() },
    };
    let (back, _) = StructuredReplyChunk::decode(&c.encode()).unwrap();
    match back.payload {
        ChunkPayload::ErrorDetail { error, message } => {
            assert_eq!(error, 5);
            assert_eq!(message, b"io".to_vec());
        },
        _ => panic!("wrong payload kind"),
    }
}

#[test]
fn chunk_unknown_type_is_invalid() {
    let c = StructuredReplyChunk { done: true, handle: 2, payload: ChunkPayload::NoPayload };
    let mut b = c.encode();
    // Overwrite the chunk-type field with a value outside the set.
    b[6] = 0x7f;
    b[7] = 0x7f;
    assert_eq!(StructuredReplyChunk::decode(&b).unwrap_err(), DecodeError::Invalid);
}

#[test]
fn flags_round_trips() {
    let h = HandshakeFlags { fixed_newstyle: true, no_zeroes: false };
    assert_eq!(HandshakeFlags::from_bits(h.to_bits()), h);
    assert_eq!(h.to_bits(), 1);
    let c = ClientHandshakeFlags { fixed_newstyle: true, no_zeroes: true };
    assert_eq!(ClientHandshakeFlags::from_bits(c.to_bits()), c);
    assert_eq!(c.to_bits(), 3);
    let f = CmdFlags { fua: true, no_hole: false, df: true, req_one: false, fast_zero: true };
    assert_eq!(CmdFlags::from_bits(f.to_bits()), f);
    assert_eq!(f.to_bits(), 1 | 4 | 16);
    let t = TransmissionFlags {
        read_only: true,
        send_flush: true,
        send_fua: false,
        rotational: false,
        send_trim: true,
        send_write_zeroes: false,
        send_df: false,
    };
    assert_eq!(TransmissionFlags::from_bits(t.to_bits()), t);
    // HAS_FLAGS is always set on the wire.
    assert_eq!(t.to_bits() & 1, 1);
}

#[test]
fn meta_request_decode() {
    // name "disk0", two queries.
    let mut b: Vec<u8> = Vec::new();
    push_u32(&mut b, 5);
    b.extend_from_slice(b"disk0");
    push_u32(&mut b, 2);
    push_u32(&mut b, 15);
    b.extend_from_slice(b"base:allocation");
    push_u32(&mut b, 10);
    b.extend_from_slice(b"qemu:dirty");
    let (name, queries) = decode_meta_request(&b).unwrap();
    assert_eq!(name, b"disk0".to_vec());
    assert_eq!(queries.len(), 2);
    assert_eq!(queries[0], b"base:allocation".to_vec());
    assert_eq!(queries[1], b"qemu:dirty".to_vec());
}

#[test]
fn meta_request_decode_rejects_malformed() {
    // Too short.
    assert!(decode_meta_request(&vec![0u8; 3]).is_none());
    // Count claims more queries than the payload holds.
    let mut b: Vec<u8> = Vec::new();
    push_u32(&mut b, 1);
    b.push(b'x');
    push_u32(&mut b, 3);
    push_u32(&mut b, 1);
    b.push(b'q');
    assert!(decode_meta_request(&b).is_none());
    // Trailing garbage after the last query.
    let mut b: Vec<u8> = Vec::new();
    push_u32(&mut b, 1);
    b.push(b'x');
    push_u32(&mut b, 0);
    b.push(0);
    assert!(decode_meta_request(&b).is_none());
}

#[test]
fn push_u64_helper_is_big_endian() {
    let mut b: Vec<u8> = Vec::new();
    push_u64(&mut b, 0x0102030405060708);
    assert_eq!(b, vec![1, 2, 3, 4, 5, 6, 7, 8]);
}
