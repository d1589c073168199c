//! One whole session at the byte level, without a socket: greeting,
//! client flags, haggling frames, then a transmission exchange.

use nbd_rs::chunks::{CmdType, TransmissionRequest};
use nbd_rs::codec::{encode_server_handshake, ClientOptionRequest, OptionCode, ReplyType};
use nbd_rs::directory::{Export, ExportDirectory};
use nbd_rs::engine::{build_reply, encode_reply, validate_request, StorageOp, StorageResult};
use nbd_rs::flags::{CmdFlags, HandshakeFlags, TransmissionFlags};
use nbd_rs::frame::{Frame, RequestType};
use nbd_rs::negotiator::{exports_wf_check, HagglingAction, Session, SessionState};

fn directory_with_disk0() -> ExportDirectory {
    let mut dir = ExportDirectory::new();
    dir.add(Export {
        name: b"disk0".to_vec(),
        size_bytes: 1 << 20,
        flags: TransmissionFlags {
            read_only: false,
            send_flush: true,
            send_fua: true,
            rotational: false,
            send_trim: true,
            send_write_zeroes: true,
            send_df: true,
        },
        min_block_size: 1,
        preferred_block_size: 4096,
        max_block_size: 0x2000000,
        contexts: vec![b"base:allocation".to_vec()],
    });
    assert!(exports_wf_check(&dir));
    dir
}

#[test]
fn whole_session_over_bytes() {
    let dir = directory_with_disk0();
    let mut session = Session::new(false);

    // The server announces itself before reading any client byte.
    let greeting = encode_server_handshake(&HandshakeFlags::server_default());
    assert_eq!(greeting.len(), 18);

    // The client echoes both mandatory flag bits.
    let wire = vec![0u8, 0, 0, 3];
    let (frame, used) = Frame::decode(&wire, RequestType::ClientOptions).unwrap();
    assert_eq!(used, 4);
    let bits = match frame {
        Frame::ClientOptions(c) => c.flags.to_bits(),
        _ => panic!("wrong frame kind"),
    };
    session.process_client_flags(bits).unwrap();
    assert_eq!(session.state, SessionState::Haggling);

    // First option: enable structured replies; the ack is addressed
    // back to the option code.
    let wire = ClientOptionRequest { option: OptionCode::StructuredReply, data: vec![] }.encode();
    let (frame, _) = Frame::decode(&wire, RequestType::OptionRequest).unwrap();
    let request = match frame {
        Frame::OptionRequest(q) => q,
        _ => panic!("wrong frame kind"),
    };
    let outcome = session.handle_option(&dir, &request);
    assert_eq!(outcome.action, HagglingAction::Continue);
    let ack = outcome.replies[0].encode();
    assert_eq!(&ack[8..12], &8u32.to_be_bytes());
    assert_eq!(&ack[12..16], &1u32.to_be_bytes());
    assert_eq!(&ack[16..20], &0u32.to_be_bytes());
    assert!(session.structured_replies);

    // Second option: select the export by name; nothing is written
    // back and the session enters transmission.
    let wire = ClientOptionRequest { option: OptionCode::ExportName, data: b"disk0".to_vec() }
        .encode();
    let (frame, _) = Frame::decode(&wire, RequestType::OptionRequest).unwrap();
    let request = match frame {
        Frame::OptionRequest(q) => q,
        _ => panic!("wrong frame kind"),
    };
    let outcome = session.handle_option(&dir, &request);
    assert!(outcome.replies.is_empty());
    assert_eq!(outcome.action, HagglingAction::EnterTransmission);
    let export = session.selected_export.as_ref().unwrap().duplicate();

    // Transmission: a read of 8 bytes at offset 16.
    let wire = TransmissionRequest {
        flags: CmdFlags::none(),
        cmd: CmdType::Read,
        handle: 0x55,
        offset: 16,
        length: 8,
        data: vec![],
    }
    .encode();
    let (frame, used) = Frame::decode(&wire, RequestType::Transmission).unwrap();
    assert_eq!(used, 28);
    let request = match frame {
        Frame::Request(t) => t,
        _ => panic!("wrong frame kind"),
    };
    let op = validate_request(&request, &export).unwrap();
    let data = match op {
        StorageOp::Read { offset, length, .. } => {
            assert_eq!(offset, 16);
            vec![7u8; length as usize]
        }
        _ => panic!("wrong operation"),
    };
    let reply = build_reply(session.structured_replies, 1, &request, &StorageResult::Data(data));
    let bytes = encode_reply(&reply);
    // Structured replies were negotiated: one DONE OffsetData chunk.
    assert_eq!(&bytes[0..4], &[0x66, 0x8e, 0x33, 0xef]);
    assert_eq!(&bytes[4..6], &[0, 1]);
    assert_eq!(&bytes[6..8], &[0, 1]);
    assert_eq!(&bytes[8..16], &0x55u64.to_be_bytes());
    assert_eq!(bytes.len(), 20 + 8 + 8);

    // A disconnect ends the session without a reply.
    let wire = TransmissionRequest {
        flags: CmdFlags::none(),
        cmd: CmdType::Disconnect,
        handle: 0,
        offset: 0,
        length: 0,
        data: vec![],
    }
    .encode();
    let (frame, _) = Frame::decode(&wire, RequestType::Transmission).unwrap();
    let request = match frame {
        Frame::Request(t) => t,
        _ => panic!("wrong frame kind"),
    };
    assert!(matches!(validate_request(&request, &export).unwrap(), StorageOp::Disconnect));
}
