//! Frame-level tests: the one encode entry point and the typed decode
//! dispatch.

use nbd_rs::chunks::{CmdType, SimpleReply, TransmissionRequest};
use nbd_rs::codec::{
    encode_client_flags, ClientOptionRequest, ClientOptions, DecodeError, OptionCode, OptionReply,
    ReplyType,
};
use nbd_rs::flags::{ClientHandshakeFlags, CmdFlags, HandshakeFlags};
use nbd_rs::frame::{Frame, RequestType};

#[test]
fn frame_encode_matches_the_message_encoders() {
    let h = HandshakeFlags { fixed_newstyle: true, no_zeroes: true };
    let f = Frame::ServerHandshake(h);
    assert_eq!(f.encode().len(), 18);

    let q = ClientOptionRequest { option: OptionCode::Abort, data: vec![] };
    let direct = q.encode();
    let f = Frame::OptionRequest(ClientOptionRequest { option: OptionCode::Abort, data: vec![] });
    assert_eq!(f.encode(), direct);

    let p = OptionReply { option: OptionCode::Abort, reply_type: ReplyType::Ack, data: vec![] };
    let direct = p.encode();
    let f = Frame::OptionReply(OptionReply {
        option: OptionCode::Abort,
        reply_type: ReplyType::Ack,
        data: vec![],
    });
    assert_eq!(f.encode(), direct);

    let s = SimpleReply { error: 0, handle: 1, data: vec![] };
    let direct = s.encode();
    let f = Frame::SimpleReply(SimpleReply { error: 0, handle: 1, data: vec![] });
    assert_eq!(f.encode(), direct);
}

#[test]
fn frame_decode_client_flags() {
    let c = ClientOptions { flags: ClientHandshakeFlags { fixed_newstyle: true, no_zeroes: true } };
    let b = encode_client_flags(&c);
    let (f, n) = Frame::decode(&b, RequestType::ClientOptions).unwrap();
    assert_eq!(n, 4);
    match f {
        Frame::ClientOptions(d) => assert_eq!(d, c),
        _ => panic!("wrong frame kind"),
    }
}

#[test]
fn frame_decode_option_request() {
    let q = ClientOptionRequest { option: OptionCode::List, data: vec![] };
    let b = q.encode();
    let (f, n) = Frame::decode(&b, RequestType::OptionRequest).unwrap();
    assert_eq!(n, 16);
    match f {
        Frame::OptionRequest(d) => {
            assert_eq!(d.option, OptionCode::List);
            assert!(d.data.is_empty());
        },
        _ => panic!("wrong frame kind"),
    }
}

#[test]
fn frame_decode_transmission_request() {
    let t = TransmissionRequest {
        flags: CmdFlags::none(),
        cmd: CmdType::Flush,
        handle: 5,
        offset: 0,
        length: 0,
        data: vec![],
    };
    let b = t.encode();
    let (f, n) = Frame::decode(&b, RequestType::Transmission).unwrap();
    assert_eq!(n, 28);
    match f {
        Frame::Request(d) => {
            assert_eq!(d.cmd, CmdType::Flush);
            assert_eq!(d.handle, 5);
        },
        _ => panic!("wrong frame kind"),
    }
}

#[test]
fn frame_decode_propagates_errors() {
    assert_eq!(
        Frame::decode(&vec![0u8; 2], RequestType::ClientOptions).unwrap_err(),
        DecodeError::Incomplete
    );
    let mut b = vec![0u8; 28];
    b[0] = 0x77;
    assert_eq!(
        Frame::decode(&b, RequestType::Transmission).unwrap_err(),
        DecodeError::BadMagic
    );
}
