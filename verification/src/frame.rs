//! One frame of the protocol, whichever phase it belongs to.
//!
//! `Frame` unites every on-wire structure under one encode entry point,
//! and `Frame::decode` reads whichever client frame the connection state
//! expects next. The round-trip law for all message types is
//! [`lemma_frame_round_trip`].

use vstd::prelude::*;
use crate::chunks::{
    spec_chunk_payload_bytes, spec_chunk_payload_valid, spec_decode_chunk, spec_decode_request,
    spec_decode_simple_reply, spec_encode_chunk, spec_encode_request, spec_encode_simple_reply,
    lemma_chunk_round_trip, lemma_request_round_trip, lemma_simple_reply_round_trip, SimpleReply,
    StructuredReplyChunk, TransmissionRequest, TransmissionRequestView,
};
use crate::codec::{
    spec_decode_client_flags, spec_decode_option_reply, spec_decode_option_request,
    spec_decode_server_handshake, spec_encode_client_flags, spec_encode_option_reply,
    spec_encode_option_request, spec_encode_server_handshake,
    lemma_client_flags_frame_round_trip, lemma_option_reply_round_trip,
    lemma_option_request_round_trip, lemma_server_handshake_round_trip, ClientOptionRequest,
    ClientOptions, DecodeError, OptionReply,
};
use crate::consts::NBD_MAX_PAYLOAD;
use crate::flags::HandshakeFlags;

verus! {

/// One frame of the protocol.
#[derive(Debug)]
pub enum Frame {
    /// The greeting the server writes before reading any client byte.
    ServerHandshake(HandshakeFlags),
    /// The 32-bit flags word the client answers the greeting with.
    ClientOptions(ClientOptions),
    /// One option request of the haggling phase.
    OptionRequest(ClientOptionRequest),
    /// One option reply of the haggling phase.
    OptionReply(OptionReply),
    /// One transmission request.
    Request(TransmissionRequest),
    /// One simple transmission reply.
    SimpleReply(SimpleReply),
    /// One structured reply chunk.
    ReplyChunk(StructuredReplyChunk),
}

/// Which client frame the connection state expects next.
#[derive(Clone, Copy, Debug, PartialEq, Eq, Structural)]
pub enum RequestType {
    /// The client flags word, right after the greeting.
    ClientOptions,
    /// An option request, during haggling.
    OptionRequest,
    /// A transmission request, after an export was selected.
    Transmission,
}

/// Bytes of a frame.
pub open spec fn spec_encode_frame(f: Frame) -> Seq<u8> {
    match f {
        Frame::ServerHandshake(h) => spec_encode_server_handshake(h),
        Frame::ClientOptions(c) => spec_encode_client_flags(c),
        Frame::OptionRequest(q) => spec_encode_option_request(q.option, q.data@),
        Frame::OptionReply(p) => spec_encode_option_reply(p.option, p.reply_type, p.data@),
        Frame::Request(t) => spec_encode_request(t.flags, t.cmd, t.handle, t.offset, t.length, t.data@),
        Frame::SimpleReply(s) => spec_encode_simple_reply(s.error, s.handle, s.data@),
        Frame::ReplyChunk(c) => spec_encode_chunk(c@),
    }
}

impl Frame {
    /// The validity bounds under which a frame can be framed and will
    /// round-trip: codes do not shadow their closed enumerations and
    /// every length respects its field's bound.
    pub open spec fn wf(&self) -> bool {
        match self {
            Frame::ServerHandshake(_) => true,
            Frame::ClientOptions(_) => true,
            Frame::OptionRequest(q) => q.wf(),
            Frame::OptionReply(p) => p.wf(),
            Frame::Request(t) => t.wf(),
            Frame::SimpleReply(s) => s.data@.len() <= NBD_MAX_PAYLOAD,
            Frame::ReplyChunk(c) => spec_chunk_payload_valid(c.payload@),
        }
    }

    /// Encodes this frame.
    pub fn encode(&self) -> (r: Vec<u8>)
        requires
            self.wf(),
        ensures
            r@ == spec_encode_frame(*self),
    {
        match self {
            Frame::ServerHandshake(h) => crate::codec::encode_server_handshake(h),
            Frame::ClientOptions(c) => crate::codec::encode_client_flags(c),
            Frame::OptionRequest(q) => q.encode(),
            Frame::OptionReply(p) => p.encode(),
            Frame::Request(t) => t.encode(),
            Frame::SimpleReply(s) => s.encode(),
            Frame::ReplyChunk(c) => c.encode(),
        }
    }

    /// Decodes, from the front of `buf`, the client frame the state
    /// `expected` calls for, returning it with the bytes consumed.
    pub fn decode(buf: &Vec<u8>, expected: RequestType) -> (r: Result<(Frame, usize), DecodeError>)
        ensures
            match expected {
                RequestType::ClientOptions => match r {
                    Ok((f, n)) => f matches Frame::ClientOptions(c) && spec_decode_client_flags(
                        buf@,
                    ) == Ok::<_, DecodeError>((c, n as int)),
                    Err(e) => spec_decode_client_flags(buf@) == Err::<(ClientOptions, int), _>(e),
                },
                RequestType::OptionRequest => match r {
                    Ok((f, n)) => f matches Frame::OptionRequest(q) && spec_decode_option_request(
                        buf@,
                    ) == Ok::<_, DecodeError>((q.option, q.data@, n as int)) && q.wf(),
                    Err(e) => spec_decode_option_request(buf@) == Err::<
                        (crate::codec::OptionCode, Seq<u8>, int),
                        _,
                    >(e),
                },
                RequestType::Transmission => match r {
                    Ok((f, n)) => f matches Frame::Request(t) && spec_decode_request(buf@) == Ok::<
                        _,
                        DecodeError,
                    >((t@, n as int)) && t.wf(),
                    Err(e) => spec_decode_request(buf@) == Err::<(TransmissionRequestView, int), _>(
                        e,
                    ),
                },
            },
    {
        match expected {
            RequestType::ClientOptions => {
                match crate::codec::decode_client_flags(buf) {
                    Ok((c, n)) => Ok((Frame::ClientOptions(c), n)),
                    Err(e) => Err(e),
                }
            },
            RequestType::OptionRequest => {
                match ClientOptionRequest::decode(buf) {
                    Ok((q, n)) => Ok((Frame::OptionRequest(q), n)),
                    Err(e) => Err(e),
                }
            },
            RequestType::Transmission => {
                match TransmissionRequest::decode(buf) {
                    Ok((t, n)) => Ok((Frame::Request(t), n)),
                    Err(e) => Err(e),
                }
            },
        }
    }
}

/// The round-trip law, for every wire message type: decoding the bytes
/// of a well-formed frame gives back exactly the values it was encoded
/// from, and consumes exactly its bytes.
pub proof fn lemma_frame_round_trip(f: Frame)
    requires
        f.wf(),
    ensures
        match f {
            Frame::ServerHandshake(h) => spec_decode_server_handshake(spec_encode_frame(f)) == Ok::<
                _,
                DecodeError,
            >((h, 18int)),
            Frame::ClientOptions(c) => spec_decode_client_flags(spec_encode_frame(f)) == Ok::<
                _,
                DecodeError,
            >((c, 4int)),
            Frame::OptionRequest(q) => spec_decode_option_request(spec_encode_frame(f)) == Ok::<
                _,
                DecodeError,
            >((q.option, q.data@, 16 + q.data@.len() as int)),
            Frame::OptionReply(p) => spec_decode_option_reply(spec_encode_frame(f)) == Ok::<
                _,
                DecodeError,
            >((p.option, p.reply_type, p.data@, 20 + p.data@.len() as int)),
            Frame::Request(t) => spec_decode_request(spec_encode_frame(f)) == Ok::<_, DecodeError>(
                (t@, 28 + t.data@.len() as int),
            ),
            Frame::SimpleReply(s) => spec_decode_simple_reply(
                spec_encode_frame(f),
                s.data@.len() as int,
            ) == Ok::<_, DecodeError>((s.error, s.handle, s.data@, 16 + s.data@.len() as int)),
            Frame::ReplyChunk(c) => spec_decode_chunk(spec_encode_frame(f)) == Ok::<_, DecodeError>(
                (c@, 20 + spec_chunk_payload_bytes(c.payload@).len() as int),
            ),
        },
{
    match f {
        Frame::ServerHandshake(h) => lemma_server_handshake_round_trip(h),
        Frame::ClientOptions(c) => lemma_client_flags_frame_round_trip(c),
        Frame::OptionRequest(q) => lemma_option_request_round_trip(q.option, q.data@),
        Frame::OptionReply(p) => lemma_option_reply_round_trip(p.option, p.reply_type, p.data@),
        Frame::Request(t) => lemma_request_round_trip(
            t.flags,
            t.cmd,
            t.handle,
            t.offset,
            t.length,
            t.data@,
        ),
        Frame::SimpleReply(s) => lemma_simple_reply_round_trip(s.error, s.handle, s.data@),
        Frame::ReplyChunk(c) => lemma_chunk_round_trip(c@),
    }
}

} // verus!
