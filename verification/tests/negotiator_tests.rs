//! Negotiator tests: the handshake gate, each option's behavior, and
//! the haggling scenarios.

use nbd_rs::codec::{ClientOptionRequest, OptionCode, ReplyType};
use nbd_rs::directory::{Export, ExportDirectory};
use nbd_rs::flags::TransmissionFlags;
use nbd_rs::negotiator::{
    exports_wf_check, HagglingAction, InteractionResult, ProtocolError, Session, SessionState,
};

fn plain_flags() -> TransmissionFlags {
    TransmissionFlags {
        read_only: false,
        send_flush: true,
        send_fua: true,
        rotational: false,
        send_trim: true,
        send_write_zeroes: true,
        send_df: true,
    }
}

fn export(name: &[u8], size: u64) -> Export {
    Export {
        name: name.to_vec(),
        size_bytes: size,
        flags: plain_flags(),
        min_block_size: 1,
        preferred_block_size: 4096,
        max_block_size: 0x2000000,
        contexts: vec![b"base:allocation".to_vec()],
    }
}

fn directory(names: &[&[u8]]) -> ExportDirectory {
    let mut dir = ExportDirectory::new();
    for n in names {
        dir.add(export(n, 1 << 20));
    }
    assert!(exports_wf_check(&dir));
    dir
}

fn haggling_session() -> Session {
    let mut s = Session::new(false);
    s.process_client_flags(0x3).unwrap();
    assert_eq!(s.state, SessionState::Haggling);
    s
}

fn request(code: OptionCode, data: &[u8]) -> ClientOptionRequest {
    ClientOptionRequest { option: code, data: data.to_vec() }
}

fn push_u32(out: &mut Vec<u8>, v: u32) {
    out.extend_from_slice(&v.to_be_bytes());
}

#[test]
fn client_flags_must_carry_both_bits() {
    // Missing either mandatory bit is a protocol violation and the
    // session accepts nothing further.
    for bits in [0u32, 0x1, 0x2, 0x4, 0x6] {
        let mut s = Session::new(false);
        let e = s.process_client_flags(bits).unwrap_err();
        assert_eq!(e, ProtocolError::ProtocolViolation);
        assert_eq!(s.state, SessionState::Aborted);
    }
    // Both bits set succeeds, extra bits and all.
    let mut s = Session::new(false);
    assert!(s.process_client_flags(0x3).is_ok());
    assert_eq!(s.state, SessionState::Haggling);
    let mut s = Session::new(false);
    assert!(s.process_client_flags(0x7).is_ok());
}

#[test]
fn unknown_option_gets_one_error_reply_and_never_closes() {
    let dir = directory(&[b"disk0"]);
    let mut s = haggling_session();
    let out = s.handle_option(&dir, &request(OptionCode::Unknown(0x1234), b""));
    assert_eq!(out.replies.len(), 1);
    assert_eq!(out.replies[0].option, OptionCode::Unknown(0x1234));
    assert!(out.replies[0].reply_type.is_error());
    assert_eq!(out.replies[0].reply_type, ReplyType::ErrUnsupported);
    assert_eq!(out.action, HagglingAction::Continue);
    assert_eq!(s.state, SessionState::Haggling);
    assert_eq!(out.action.verdict(), None);
    assert_eq!(out.fatal, None);
}

#[test]
fn abort_acks_and_closes_cleanly() {
    let dir = directory(&[b"disk0"]);
    let mut s = haggling_session();
    let out = s.handle_option(&dir, &request(OptionCode::Abort, b""));
    assert_eq!(out.replies.len(), 1);
    assert_eq!(out.replies[0].reply_type, ReplyType::Ack);
    assert_eq!(out.action, HagglingAction::CloseAbort);
    assert_eq!(s.state, SessionState::Aborted);
    assert_eq!(out.action.verdict(), Some(InteractionResult::Abort));
}

#[test]
fn export_name_selects_disk0_silently() {
    // Scenario: flags 0x3, then ExportName "disk0" (1 MiB): the session
    // enters transmission with no bytes written back.
    let dir = directory(&[b"disk0"]);
    let mut s = Session::new(false);
    s.process_client_flags(0x3).unwrap();
    let out = s.handle_option(&dir, &request(OptionCode::ExportName, b"disk0"));
    assert_eq!(out.replies.len(), 0);
    assert_eq!(out.action, HagglingAction::EnterTransmission);
    assert_eq!(s.state, SessionState::ExportSelected);
    let e = s.selected_export.as_ref().unwrap();
    assert_eq!(e.name, b"disk0".to_vec());
    assert_eq!(e.size_bytes, 1 << 20);
    assert_eq!(out.action.verdict(), Some(InteractionResult::Continue));
}

#[test]
fn export_name_unknown_closes_with_no_reply() {
    let dir = directory(&[b"disk0"]);
    let mut s = haggling_session();
    let out = s.handle_option(&dir, &request(OptionCode::ExportName, b"missing"));
    assert_eq!(out.replies.len(), 0);
    assert_eq!(out.action, HagglingAction::CloseFatal);
    assert_eq!(out.fatal, Some(ProtocolError::ExportNotFound));
    assert_eq!(s.state, SessionState::Aborted);
    assert_eq!(out.action.verdict(), Some(InteractionResult::Abort));
}

#[test]
fn go_unknown_replies_error_and_stays_haggling() {
    let dir = directory(&[b"disk0"]);
    let mut s = haggling_session();
    let out = s.handle_option(&dir, &request(OptionCode::Go, b"missing"));
    assert_eq!(out.replies.len(), 1);
    assert_eq!(out.replies[0].reply_type, ReplyType::ErrUnknown);
    assert_eq!(out.action, HagglingAction::Continue);
    assert_eq!(s.state, SessionState::Haggling);
    // The connection is still usable: a later Go for a real export works.
    let out = s.handle_option(&dir, &request(OptionCode::Go, b"disk0"));
    assert_eq!(out.replies.len(), 3);
    assert_eq!(out.action, HagglingAction::EnterTransmission);
    assert_eq!(s.state, SessionState::ExportSelected);
}

#[test]
fn go_replies_info_blocksize_ack() {
    let dir = directory(&[b"disk0"]);
    let mut s = haggling_session();
    let out = s.handle_option(&dir, &request(OptionCode::Go, b"disk0"));
    assert_eq!(out.replies.len(), 3);
    assert_eq!(out.replies[0].reply_type, ReplyType::Info);
    // Export info payload: info type 0, size (1 MiB), transmission flags.
    let p = &out.replies[0].data;
    assert_eq!(p.len(), 12);
    assert_eq!(&p[0..2], &[0, 0]);
    assert_eq!(&p[2..10], &(1u64 << 20).to_be_bytes());
    assert_eq!(out.replies[1].reply_type, ReplyType::Info);
    // Block size payload: info type 3 and the three bounds.
    let p = &out.replies[1].data;
    assert_eq!(p.len(), 14);
    assert_eq!(&p[0..2], &[0, 3]);
    assert_eq!(&p[2..6], &1u32.to_be_bytes());
    assert_eq!(&p[6..10], &4096u32.to_be_bytes());
    assert_eq!(out.replies[2].reply_type, ReplyType::Ack);
    for rep in &out.replies {
        assert_eq!(rep.option, OptionCode::Go);
    }
}

#[test]
fn info_replies_but_stays_haggling() {
    let dir = directory(&[b"disk0"]);
    let mut s = haggling_session();
    let out = s.handle_option(&dir, &request(OptionCode::Info, b"disk0"));
    assert_eq!(out.replies.len(), 3);
    assert_eq!(out.action, HagglingAction::Continue);
    assert_eq!(s.state, SessionState::Haggling);
    assert!(s.selected_export.is_none());
}

#[test]
fn list_replies_one_entry_per_export_then_ack() {
    // Scenario: exports {"a","b"}: two Server entries in directory
    // order, then one Ack.
    let dir = directory(&[b"a", b"b"]);
    let mut s = haggling_session();
    let out = s.handle_option(&dir, &request(OptionCode::List, b""));
    assert_eq!(out.replies.len(), 3);
    assert_eq!(out.replies[0].reply_type, ReplyType::Server);
    assert_eq!(out.replies[0].data, vec![0, 0, 0, 1, b'a']);
    assert_eq!(out.replies[1].reply_type, ReplyType::Server);
    assert_eq!(out.replies[1].data, vec![0, 0, 0, 1, b'b']);
    assert_eq!(out.replies[2].reply_type, ReplyType::Ack);
    assert_eq!(out.action, HagglingAction::Continue);
    assert_eq!(s.state, SessionState::Haggling);
}

#[test]
fn start_tls_when_unavailable_is_policy_error() {
    let dir = directory(&[b"disk0"]);
    let mut s = haggling_session();
    let out = s.handle_option(&dir, &request(OptionCode::StartTls, b""));
    assert_eq!(out.replies.len(), 1);
    assert_eq!(out.replies[0].reply_type, ReplyType::ErrPolicy);
    assert_eq!(out.action, HagglingAction::Continue);
    assert_eq!(s.state, SessionState::Haggling);
}

#[test]
fn start_tls_when_available_acks_and_suspends() {
    let dir = directory(&[b"disk0"]);
    let mut s = Session::new(true);
    s.process_client_flags(0x3).unwrap();
    let out = s.handle_option(&dir, &request(OptionCode::StartTls, b""));
    assert_eq!(out.replies.len(), 1);
    assert_eq!(out.replies[0].reply_type, ReplyType::Ack);
    assert_eq!(out.action, HagglingAction::StartTls);
    assert_eq!(s.state, SessionState::TlsPending);
    s.tls_started();
    assert_eq!(s.state, SessionState::Haggling);
}

#[test]
fn structured_reply_acks_and_sticks() {
    let dir = directory(&[b"disk0"]);
    let mut s = haggling_session();
    assert!(!s.structured_replies);
    let out = s.handle_option(&dir, &request(OptionCode::StructuredReply, b""));
    assert_eq!(out.replies.len(), 1);
    assert_eq!(out.replies[0].reply_type, ReplyType::Ack);
    assert!(s.structured_replies);
    // Asking again cannot unset it.
    let out = s.handle_option(&dir, &request(OptionCode::StructuredReply, b""));
    assert_eq!(out.replies[0].reply_type, ReplyType::Ack);
    assert!(s.structured_replies);
}

#[test]
fn set_meta_context_assigns_sequential_ids() {
    let dir = directory(&[b"disk0"]);
    let mut s = haggling_session();
    let mut payload: Vec<u8> = Vec::new();
    push_u32(&mut payload, 5);
    payload.extend_from_slice(b"disk0");
    push_u32(&mut payload, 2);
    push_u32(&mut payload, 15);
    payload.extend_from_slice(b"base:allocation");
    push_u32(&mut payload, 10);
    payload.extend_from_slice(b"qemu:dirty");
    let out = s.handle_option(&dir, &request(OptionCode::SetMetaContext, &payload));
    // Only the recognized name is answered; the other is silently
    // omitted, not an error.
    assert_eq!(out.replies.len(), 2);
    assert_eq!(out.replies[0].reply_type, ReplyType::MetaContext);
    assert_eq!(&out.replies[0].data[0..4], &1u32.to_be_bytes());
    assert_eq!(&out.replies[0].data[4..], b"base:allocation");
    assert_eq!(out.replies[1].reply_type, ReplyType::Ack);
    assert_eq!(s.meta_contexts.entries.len(), 1);
    assert_eq!(s.meta_contexts.entries[0].name, b"base:allocation".to_vec());
    assert_eq!(s.meta_contexts.entries[0].id, 1);
    assert_eq!(s.next_context_id, 2);
    assert_eq!(out.action, HagglingAction::Continue);
}

#[test]
fn list_meta_context_reports_without_assigning() {
    let dir = directory(&[b"disk0"]);
    let mut s = haggling_session();
    let mut payload: Vec<u8> = Vec::new();
    push_u32(&mut payload, 5);
    payload.extend_from_slice(b"disk0");
    push_u32(&mut payload, 0);
    let out = s.handle_option(&dir, &request(OptionCode::ListMetaContext, &payload));
    assert_eq!(out.replies.len(), 2);
    assert_eq!(out.replies[0].reply_type, ReplyType::MetaContext);
    assert_eq!(&out.replies[0].data[0..4], &0u32.to_be_bytes());
    assert_eq!(&out.replies[0].data[4..], b"base:allocation");
    assert_eq!(out.replies[1].reply_type, ReplyType::Ack);
    assert!(s.meta_contexts.entries.is_empty());
    assert_eq!(s.next_context_id, 1);
}

#[test]
fn meta_context_malformed_payload_is_invalid_reply() {
    let dir = directory(&[b"disk0"]);
    let mut s = haggling_session();
    let out = s.handle_option(&dir, &request(OptionCode::SetMetaContext, b"xx"));
    assert_eq!(out.replies.len(), 1);
    assert_eq!(out.replies[0].reply_type, ReplyType::ErrInvalid);
    assert_eq!(out.action, HagglingAction::Continue);
    assert_eq!(s.state, SessionState::Haggling);
}

#[test]
fn meta_context_unknown_export_is_unknown_reply() {
    let dir = directory(&[b"disk0"]);
    let mut s = haggling_session();
    let mut payload: Vec<u8> = Vec::new();
    push_u32(&mut payload, 4);
    payload.extend_from_slice(b"nope");
    push_u32(&mut payload, 0);
    let out = s.handle_option(&dir, &request(OptionCode::ListMetaContext, &payload));
    assert_eq!(out.replies.len(), 1);
    assert_eq!(out.replies[0].reply_type, ReplyType::ErrUnknown);
    assert_eq!(out.action, HagglingAction::Continue);
}

#[test]
fn directory_lookup_finds_first_match() {
    let dir = directory(&[b"a", b"b"]);
    assert_eq!(dir.lookup(&b"a".to_vec()), Some(0));
    assert_eq!(dir.lookup(&b"b".to_vec()), Some(1));
    assert_eq!(dir.lookup(&b"c".to_vec()), None);
}

#[test]
fn every_reply_is_addressed_to_its_option() {
    let dir = directory(&[b"a", b"b"]);
    let mut s = haggling_session();
    let out = s.handle_option(&dir, &request(OptionCode::List, b""));
    for rep in &out.replies {
        assert_eq!(rep.option, OptionCode::List);
    }
    let out = s.handle_option(&dir, &request(OptionCode::Info, b"a"));
    for rep in &out.replies {
        assert_eq!(rep.option, OptionCode::Info);
    }
}
