//! Wire codec for the handshake and option-haggling phase.
//!
//! Pure encode and decode functions for the server greeting, the client
//! flags word, option requests and option replies. Every decode is total:
//! it returns the decoded message or a [`DecodeError`], never trusting an
//! implicit terminator, and bounds every length field by
//! [`crate::consts::NBD_MAX_PAYLOAD`] before a buffer is sized from it.

use vstd::prelude::*;
use crate::consts::{
    NBD_INIT_MAGIC, NBD_MAX_PAYLOAD, NBD_OPTS_MAGIC, NBD_OPT_ABORT, NBD_OPT_EXPORT_NAME,
    NBD_OPT_GO, NBD_OPT_INFO, NBD_OPT_LIST, NBD_OPT_LIST_META_CONTEXT, NBD_OPT_SET_META_CONTEXT,
    NBD_OPT_STARTTLS, NBD_OPT_STRUCTURED_REPLY, NBD_REP_ACK, NBD_REP_ERR_INVALID,
    NBD_REP_ERR_POLICY, NBD_REP_ERR_UNKNOWN, NBD_REP_ERR_UNSUP, NBD_REP_FLAG_ERROR, NBD_REP_INFO,
    NBD_REP_MAGIC, NBD_REP_META_CONTEXT, NBD_REP_SERVER,
};
use crate::flags::{
    spec_client_flag_bits, spec_client_flags_of_bits, spec_handshake_bits, spec_handshake_of_bits,
    lemma_client_flags_round_trip, lemma_handshake_flags_round_trip, ClientHandshakeFlags,
    HandshakeFlags,
};
use crate::wire::{
    get_u16_be, get_u32_be, get_u64_be, lemma_u16_be_round_trip, lemma_u32_be_round_trip,
    lemma_u64_be_round_trip, push_bytes, push_u16_be, push_u32_be, push_u64_be, spec_u16_be,
    spec_u16_from_be, spec_u32_be, spec_u32_from_be, spec_u64_be, spec_u64_from_be,
};

verus! {

/// The option codes a client can send during haggling. Codes outside the
/// closed set decode to `Unknown`; reacting to them is the negotiator's
/// decision, not a decode failure.
#[derive(Clone, Copy, Debug, PartialEq, Eq, Structural)]
pub enum OptionCode {
    ExportName,
    Abort,
    List,
    StartTls,
    Info,
    Go,
    StructuredReply,
    ListMetaContext,
    SetMetaContext,
    Unknown(u32),
}

/// Reply types of an option reply. Error replies carry
/// `NBD_REP_FLAG_ERROR` in their wire value.
#[derive(Clone, Copy, Debug, PartialEq, Eq, Structural)]
pub enum ReplyType {
    Ack,
    Server,
    Info,
    MetaContext,
    ErrUnsupported,
    ErrPolicy,
    ErrInvalid,
    ErrUnknown,
}

/// Why a byte buffer failed to decode.
#[derive(Clone, Copy, Debug, PartialEq, Eq, Structural)]
pub enum DecodeError {
    /// A magic number did not match: a non-NBD or desynchronized peer.
    /// Always fatal to the connection.
    BadMagic,
    /// A length field exceeds the configured bound; treated as a hostile
    /// or corrupted peer and fatal.
    TooLarge,
    /// The buffer ends before the frame does; read more and retry.
    Incomplete,
    /// The frame is structurally invalid (a field value or an inner
    /// length that the format does not allow).
    Invalid,
}

/// An option request read from the client: one code and its payload.
#[derive(Clone, Debug)]
pub struct ClientOptionRequest {
    pub option: OptionCode,
    pub data: Vec<u8>,
}

/// The 32-bit flags frame the client sends right after the greeting.
#[derive(Clone, Copy, Debug, PartialEq, Eq, Structural)]
pub struct ClientOptions {
    pub flags: ClientHandshakeFlags,
}

/// An option reply the server sends: addressed back to the option code it
/// answers, with a reply type and payload.
#[derive(Clone, Debug)]
pub struct OptionReply {
    pub option: OptionCode,
    pub reply_type: ReplyType,
    pub data: Vec<u8>,
}

/// Whether `n` is one of the option codes of the closed enumeration.
pub open spec fn spec_option_code_known(n: u32) -> bool {
    n == NBD_OPT_EXPORT_NAME || n == NBD_OPT_ABORT || n == NBD_OPT_LIST || n == NBD_OPT_STARTTLS
        || n == NBD_OPT_INFO || n == NBD_OPT_GO || n == NBD_OPT_STRUCTURED_REPLY || n
        == NBD_OPT_LIST_META_CONTEXT || n == NBD_OPT_SET_META_CONTEXT
}

/// The option code denoted by the wire value `n`.
pub open spec fn spec_option_code_of(n: u32) -> OptionCode {
    if n == NBD_OPT_EXPORT_NAME {
        OptionCode::ExportName
    } else if n == NBD_OPT_ABORT {
        OptionCode::Abort
    } else if n == NBD_OPT_LIST {
        OptionCode::List
    } else if n == NBD_OPT_STARTTLS {
        OptionCode::StartTls
    } else if n == NBD_OPT_INFO {
        OptionCode::Info
    } else if n == NBD_OPT_GO {
        OptionCode::Go
    } else if n == NBD_OPT_STRUCTURED_REPLY {
        OptionCode::StructuredReply
    } else if n == NBD_OPT_LIST_META_CONTEXT {
        OptionCode::ListMetaContext
    } else if n == NBD_OPT_SET_META_CONTEXT {
        OptionCode::SetMetaContext
    } else {
        OptionCode::Unknown(n)
    }
}

/// The wire value of an option code.
pub open spec fn spec_option_code_number(c: OptionCode) -> u32 {
    match c {
        OptionCode::ExportName => NBD_OPT_EXPORT_NAME,
        OptionCode::Abort => NBD_OPT_ABORT,
        OptionCode::List => NBD_OPT_LIST,
        OptionCode::StartTls => NBD_OPT_STARTTLS,
        OptionCode::Info => NBD_OPT_INFO,
        OptionCode::Go => NBD_OPT_GO,
        OptionCode::StructuredReply => NBD_OPT_STRUCTURED_REPLY,
        OptionCode::ListMetaContext => NBD_OPT_LIST_META_CONTEXT,
        OptionCode::SetMetaContext => NBD_OPT_SET_META_CONTEXT,
        OptionCode::Unknown(n) => n,
    }
}

/// An `Unknown` code never shadows a member of the closed enumeration.
/// Decoding establishes this; encoding a code that breaks it would not
/// round-trip.
pub open spec fn spec_option_code_valid(c: OptionCode) -> bool {
    match c {
        OptionCode::Unknown(n) => !spec_option_code_known(n),
        _ => true,
    }
}

/// Wire value and option code convert back and forth exactly.
pub proof fn lemma_option_code_round_trip(c: OptionCode)
    requires
        spec_option_code_valid(c),
    ensures
        spec_option_code_of(spec_option_code_number(c)) == c,
{
}

/// The wire value of a reply type.
pub open spec fn spec_reply_type_number(t: ReplyType) -> u32 {
    match t {
        ReplyType::Ack => NBD_REP_ACK,
        ReplyType::Server => NBD_REP_SERVER,
        ReplyType::Info => NBD_REP_INFO,
        ReplyType::MetaContext => NBD_REP_META_CONTEXT,
        ReplyType::ErrUnsupported => NBD_REP_ERR_UNSUP,
        ReplyType::ErrPolicy => NBD_REP_ERR_POLICY,
        ReplyType::ErrInvalid => NBD_REP_ERR_INVALID,
        ReplyType::ErrUnknown => NBD_REP_ERR_UNKNOWN,
    }
}

/// The reply type denoted by the wire value `n`, if any.
pub open spec fn spec_reply_type_of(n: u32) -> Option<ReplyType> {
    if n == NBD_REP_ACK {
        Some(ReplyType::Ack)
    } else if n == NBD_REP_SERVER {
        Some(ReplyType::Server)
    } else if n == NBD_REP_INFO {
        Some(ReplyType::Info)
    } else if n == NBD_REP_META_CONTEXT {
        Some(ReplyType::MetaContext)
    } else if n == NBD_REP_ERR_UNSUP {
        Some(ReplyType::ErrUnsupported)
    } else if n == NBD_REP_ERR_POLICY {
        Some(ReplyType::ErrPolicy)
    } else if n == NBD_REP_ERR_INVALID {
        Some(ReplyType::ErrInvalid)
    } else if n == NBD_REP_ERR_UNKNOWN {
        Some(ReplyType::ErrUnknown)
    } else {
        None
    }
}

/// Whether a reply type is one of the error variants.
pub open spec fn spec_reply_is_error(t: ReplyType) -> bool {
    match t {
        ReplyType::ErrUnsupported | ReplyType::ErrPolicy | ReplyType::ErrInvalid
            | ReplyType::ErrUnknown => true,
        _ => false,
    }
}

/// A reply type is an error exactly when its wire value carries the high
/// bit, `NBD_REP_FLAG_ERROR`.
pub proof fn lemma_reply_error_high_bit(t: ReplyType)
    ensures
        spec_reply_is_error(t) <==> spec_reply_type_number(t) >= NBD_REP_FLAG_ERROR,
{
}

impl OptionCode {
    /// The wire value of this option code.
    pub fn number(&self) -> (r: u32)
        ensures
            r == spec_option_code_number(*self),
    {
        match self {
            OptionCode::ExportName => NBD_OPT_EXPORT_NAME,
            OptionCode::Abort => NBD_OPT_ABORT,
            OptionCode::List => NBD_OPT_LIST,
            OptionCode::StartTls => NBD_OPT_STARTTLS,
            OptionCode::Info => NBD_OPT_INFO,
            OptionCode::Go => NBD_OPT_GO,
            OptionCode::StructuredReply => NBD_OPT_STRUCTURED_REPLY,
            OptionCode::ListMetaContext => NBD_OPT_LIST_META_CONTEXT,
            OptionCode::SetMetaContext => NBD_OPT_SET_META_CONTEXT,
            OptionCode::Unknown(n) => *n,
        }
    }

    /// The option code denoted by the wire value `n`.
    pub fn from_number(n: u32) -> (r: OptionCode)
        ensures
            r == spec_option_code_of(n),
            spec_option_code_valid(r),
    {
        if n == NBD_OPT_EXPORT_NAME {
            OptionCode::ExportName
        } else if n == NBD_OPT_ABORT {
            OptionCode::Abort
        } else if n == NBD_OPT_LIST {
            OptionCode::List
        } else if n == NBD_OPT_STARTTLS {
            OptionCode::StartTls
        } else if n == NBD_OPT_INFO {
            OptionCode::Info
        } else if n == NBD_OPT_GO {
            OptionCode::Go
        } else if n == NBD_OPT_STRUCTURED_REPLY {
            OptionCode::StructuredReply
        } else if n == NBD_OPT_LIST_META_CONTEXT {
            OptionCode::ListMetaContext
        } else if n == NBD_OPT_SET_META_CONTEXT {
            OptionCode::SetMetaContext
        } else {
            OptionCode::Unknown(n)
        }
    }
}

impl ReplyType {
    /// The wire value of this reply type.
    pub fn number(&self) -> (r: u32)
        ensures
            r == spec_reply_type_number(*self),
    {
        match self {
            ReplyType::Ack => NBD_REP_ACK,
            ReplyType::Server => NBD_REP_SERVER,
            ReplyType::Info => NBD_REP_INFO,
            ReplyType::MetaContext => NBD_REP_META_CONTEXT,
            ReplyType::ErrUnsupported => NBD_REP_ERR_UNSUP,
            ReplyType::ErrPolicy => NBD_REP_ERR_POLICY,
            ReplyType::ErrInvalid => NBD_REP_ERR_INVALID,
            ReplyType::ErrUnknown => NBD_REP_ERR_UNKNOWN,
        }
    }

    /// The reply type denoted by the wire value `n`, if any.
    pub fn from_number(n: u32) -> (r: Option<ReplyType>)
        ensures
            r == spec_reply_type_of(n),
    {
        if n == NBD_REP_ACK {
            Some(ReplyType::Ack)
        } else if n == NBD_REP_SERVER {
            Some(ReplyType::Server)
        } else if n == NBD_REP_INFO {
            Some(ReplyType::Info)
        } else if n == NBD_REP_META_CONTEXT {
            Some(ReplyType::MetaContext)
        } else if n == NBD_REP_ERR_UNSUP {
            Some(ReplyType::ErrUnsupported)
        } else if n == NBD_REP_ERR_POLICY {
            Some(ReplyType::ErrPolicy)
        } else if n == NBD_REP_ERR_INVALID {
            Some(ReplyType::ErrInvalid)
        } else if n == NBD_REP_ERR_UNKNOWN {
            Some(ReplyType::ErrUnknown)
        } else {
            None
        }
    }

    /// Whether this reply type is an error variant.
    pub fn is_error(&self) -> (r: bool)
        ensures
            r == spec_reply_is_error(*self),
    {
        match self {
            ReplyType::ErrUnsupported | ReplyType::ErrPolicy | ReplyType::ErrInvalid
                | ReplyType::ErrUnknown => true,
            _ => false,
        }
    }
}

/// Copies `count` bytes of `buf` starting at `start` into a fresh vector.
pub fn copy_range(buf: &Vec<u8>, start: usize, count: usize) -> (r: Vec<u8>)
    requires
        start + count <= buf@.len(),
    ensures
        r@ == buf@.subrange(start as int, start + count),
{
    let _n: usize = buf.len();
    let mut r: Vec<u8> = Vec::new();
    let mut i: usize = 0;
    while i < count
        invariant
            start + count <= buf@.len(),
            buf@.len() <= usize::MAX,
            i <= count,
            r@ == buf@.subrange(start as int, start + i),
        decreases count - i,
    {
        r.push(buf[start + i]);
        assert(r@ =~= buf@.subrange(start as int, start + i + 1));
        i = i + 1;
    }
    r
}

// ---------------------------------------------------------------------
// Server greeting: INIT magic, OPTS magic, 16-bit handshake flags.
// ---------------------------------------------------------------------

/// Bytes of the server greeting.
pub open spec fn spec_encode_server_handshake(f: HandshakeFlags) -> Seq<u8> {
    spec_u64_be(NBD_INIT_MAGIC) + spec_u64_be(NBD_OPTS_MAGIC) + spec_u16_be(spec_handshake_bits(f))
}

/// Decodes a server greeting: the two magics, then the flags.
pub open spec fn spec_decode_server_handshake(b: Seq<u8>) -> Result<(HandshakeFlags, int), DecodeError> {
    if b.len() < 18 {
        Err(DecodeError::Incomplete)
    } else if spec_u64_from_be(b) != NBD_INIT_MAGIC || spec_u64_from_be(b.skip(8))
        != NBD_OPTS_MAGIC {
        Err(DecodeError::BadMagic)
    } else {
        Ok((spec_handshake_of_bits(spec_u16_from_be(b.skip(16))), 18))
    }
}

/// Encodes the server greeting the driver writes before reading any
/// client byte.
pub fn encode_server_handshake(f: &HandshakeFlags) -> (r: Vec<u8>)
    ensures
        r@ == spec_encode_server_handshake(*f),
{
    let mut r: Vec<u8> = Vec::new();
    push_u64_be(&mut r, NBD_INIT_MAGIC);
    push_u64_be(&mut r, NBD_OPTS_MAGIC);
    push_u16_be(&mut r, f.to_bits());
    r
}

/// Decodes a server greeting.
pub fn decode_server_handshake(buf: &Vec<u8>) -> (r: Result<(HandshakeFlags, usize), DecodeError>)
    ensures
        match r {
            Ok((f, n)) => spec_decode_server_handshake(buf@) == Ok::<_, DecodeError>((f, n as int)),
            Err(e) => spec_decode_server_handshake(buf@) == Err::<(HandshakeFlags, int), _>(e),
        },
{
    if buf.len() < 18 {
        return Err(DecodeError::Incomplete);
    }
    if get_u64_be(buf, 0) != NBD_INIT_MAGIC || get_u64_be(buf, 8) != NBD_OPTS_MAGIC {
        assert(buf@.skip(0) == buf@);
        return Err(DecodeError::BadMagic);
    }
    assert(buf@.skip(0) == buf@);
    Ok((HandshakeFlags::from_bits(get_u16_be(buf, 16)), 18))
}

/// The server greeting decodes back to the flags it was encoded from.
pub proof fn lemma_server_handshake_round_trip(f: HandshakeFlags)
    ensures
        spec_decode_server_handshake(spec_encode_server_handshake(f)) == Ok::<_, DecodeError>(
            (f, 18int),
        ),
{
    let b = spec_encode_server_handshake(f);
    assert(b.len() == 18);
    assert(b.skip(0) =~= spec_u64_be(NBD_INIT_MAGIC) + (spec_u64_be(NBD_OPTS_MAGIC) + spec_u16_be(
        spec_handshake_bits(f),
    )));
    lemma_u64_be_round_trip(NBD_INIT_MAGIC);
    assert(spec_u64_from_be(b) == NBD_INIT_MAGIC);
    assert(b.skip(8) =~= spec_u64_be(NBD_OPTS_MAGIC) + spec_u16_be(spec_handshake_bits(f)));
    lemma_u64_be_round_trip(NBD_OPTS_MAGIC);
    assert(spec_u64_from_be(b.skip(8)) == NBD_OPTS_MAGIC);
    assert(b.skip(16) =~= spec_u16_be(spec_handshake_bits(f)));
    lemma_u16_be_round_trip(spec_handshake_bits(f));
    lemma_handshake_flags_round_trip(f);
}

// ---------------------------------------------------------------------
// Client flags: a single 32-bit word.
// ---------------------------------------------------------------------

/// Bytes of the client flags frame.
pub open spec fn spec_encode_client_flags(c: ClientOptions) -> Seq<u8> {
    spec_u32_be(spec_client_flag_bits(c.flags))
}

/// Decodes the client flags frame.
pub open spec fn spec_decode_client_flags(b: Seq<u8>) -> Result<(ClientOptions, int), DecodeError> {
    if b.len() < 4 {
        Err(DecodeError::Incomplete)
    } else {
        Ok((ClientOptions { flags: spec_client_flags_of_bits(spec_u32_from_be(b)) }, 4))
    }
}

/// Encodes the client flags frame.
pub fn encode_client_flags(c: &ClientOptions) -> (r: Vec<u8>)
    ensures
        r@ == spec_encode_client_flags(*c),
{
    let mut r: Vec<u8> = Vec::new();
    push_u32_be(&mut r, c.flags.to_bits());
    assert(r@ =~= spec_encode_client_flags(*c));
    r
}

/// Decodes the client flags frame.
pub fn decode_client_flags(buf: &Vec<u8>) -> (r: Result<(ClientOptions, usize), DecodeError>)
    ensures
        match r {
            Ok((c, n)) => spec_decode_client_flags(buf@) == Ok::<_, DecodeError>((c, n as int)),
            Err(e) => spec_decode_client_flags(buf@) == Err::<(ClientOptions, int), _>(e),
        },
{
    if buf.len() < 4 {
        return Err(DecodeError::Incomplete);
    }
    assert(buf@.skip(0) == buf@);
    Ok((ClientOptions { flags: ClientHandshakeFlags::from_bits(get_u32_be(buf, 0)) }, 4))
}

/// The client flags frame decodes back to the flags it was encoded from.
pub proof fn lemma_client_flags_frame_round_trip(c: ClientOptions)
    ensures
        spec_decode_client_flags(spec_encode_client_flags(c)) == Ok::<_, DecodeError>((c, 4int)),
{
    lemma_u32_be_round_trip(spec_client_flag_bits(c.flags));
    lemma_client_flags_round_trip(c.flags);
}

// ---------------------------------------------------------------------
// Option request: IHAVEOPT magic, code, length, payload.
// ---------------------------------------------------------------------

/// Bytes of an option request.
pub open spec fn spec_encode_option_request(code: OptionCode, payload: Seq<u8>) -> Seq<u8> {
    spec_u64_be(NBD_OPTS_MAGIC) + spec_u32_be(spec_option_code_number(code)) + spec_u32_be(
        payload.len() as u32,
    ) + payload
}

/// Decodes an option request. The length field is bounded before the
/// payload is touched.
pub open spec fn spec_decode_option_request(b: Seq<u8>) -> Result<
    (OptionCode, Seq<u8>, int),
    DecodeError,
> {
    if b.len() < 16 {
        Err(DecodeError::Incomplete)
    } else if spec_u64_from_be(b) != NBD_OPTS_MAGIC {
        Err(DecodeError::BadMagic)
    } else {
        let len = spec_u32_from_be(b.skip(12));
        if len > NBD_MAX_PAYLOAD {
            Err(DecodeError::TooLarge)
        } else if b.len() < 16 + len {
            Err(DecodeError::Incomplete)
        } else {
            Ok((spec_option_code_of(spec_u32_from_be(b.skip(8))), b.subrange(16, 16 + len), 16 + len))
        }
    }
}

impl ClientOptionRequest {
    /// A request is well formed when its code does not shadow the closed
    /// enumeration and its payload respects the length bound.
    pub open spec fn wf(&self) -> bool {
        spec_option_code_valid(self.option) && self.data@.len() <= NBD_MAX_PAYLOAD
    }

    /// Encodes this option request.
    pub fn encode(&self) -> (r: Vec<u8>)
        requires
            self.data@.len() <= NBD_MAX_PAYLOAD,
        ensures
            r@ == spec_encode_option_request(self.option, self.data@),
    {
        let mut r: Vec<u8> = Vec::new();
        push_u64_be(&mut r, NBD_OPTS_MAGIC);
        push_u32_be(&mut r, self.option.number());
        push_u32_be(&mut r, self.data.len() as u32);
        push_bytes(&mut r, &self.data);
        r
    }

    /// Decodes one option request from the front of `buf`, returning it
    /// with the number of bytes consumed.
    pub fn decode(buf: &Vec<u8>) -> (r: Result<(ClientOptionRequest, usize), DecodeError>)
        ensures
            match r {
                Ok((req, n)) => spec_decode_option_request(buf@) == Ok::<_, DecodeError>(
                    (req.option, req.data@, n as int),
                ) && req.wf(),
                Err(e) => spec_decode_option_request(buf@) == Err::<(OptionCode, Seq<u8>, int), _>(
                    e,
                ),
            },
    {
        if buf.len() < 16 {
            return Err(DecodeError::Incomplete);
        }
        assert(buf@.skip(0) == buf@);
        if get_u64_be(buf, 0) != NBD_OPTS_MAGIC {
            return Err(DecodeError::BadMagic);
        }
        let len = get_u32_be(buf, 12);
        if len > NBD_MAX_PAYLOAD {
            return Err(DecodeError::TooLarge);
        }
        if buf.len() < 16 + len as usize {
            return Err(DecodeError::Incomplete);
        }
        let code = OptionCode::from_number(get_u32_be(buf, 8));
        let data = copy_range(buf, 16, len as usize);
        Ok((ClientOptionRequest { option: code, data }, 16 + len as usize))
    }
}

/// An option request decodes back to the code and payload it was encoded
/// from.
pub proof fn lemma_option_request_round_trip(code: OptionCode, payload: Seq<u8>)
    requires
        spec_option_code_valid(code),
        payload.len() <= NBD_MAX_PAYLOAD,
    ensures
        spec_decode_option_request(spec_encode_option_request(code, payload)) == Ok::<
            _,
            DecodeError,
        >((code, payload, 16 + payload.len() as int)),
{
    let b = spec_encode_option_request(code, payload);
    assert(b.len() == 16 + payload.len());
    lemma_u64_be_round_trip(NBD_OPTS_MAGIC);
    assert(spec_u64_from_be(b) == NBD_OPTS_MAGIC);
    let nco = spec_option_code_number(code);
    assert(b.skip(8) =~= spec_u32_be(nco) + (spec_u32_be(payload.len() as u32) + payload));
    lemma_u32_be_round_trip(nco);
    assert(spec_u32_from_be(b.skip(8)) == nco);
    lemma_option_code_round_trip(code);
    assert(b.skip(12) =~= spec_u32_be(payload.len() as u32) + payload);
    lemma_u32_be_round_trip(payload.len() as u32);
    assert(spec_u32_from_be(b.skip(12)) == payload.len());
    assert(b.subrange(16, 16 + payload.len() as int) =~= payload);
}

// ---------------------------------------------------------------------
// Option reply: REP magic, code, reply type, length, payload.
// ---------------------------------------------------------------------

/// Bytes of an option reply.
pub open spec fn spec_encode_option_reply(
    code: OptionCode,
    t: ReplyType,
    payload: Seq<u8>,
) -> Seq<u8> {
    spec_u64_be(NBD_REP_MAGIC) + spec_u32_be(spec_option_code_number(code)) + spec_u32_be(
        spec_reply_type_number(t),
    ) + spec_u32_be(payload.len() as u32) + payload
}

/// Decodes an option reply.
pub open spec fn spec_decode_option_reply(b: Seq<u8>) -> Result<
    (OptionCode, ReplyType, Seq<u8>, int),
    DecodeError,
> {
    if b.len() < 20 {
        Err(DecodeError::Incomplete)
    } else if spec_u64_from_be(b) != NBD_REP_MAGIC {
        Err(DecodeError::BadMagic)
    } else {
        let len = spec_u32_from_be(b.skip(16));
        if len > NBD_MAX_PAYLOAD {
            Err(DecodeError::TooLarge)
        } else if b.len() < 20 + len {
            Err(DecodeError::Incomplete)
        } else {
            match spec_reply_type_of(spec_u32_from_be(b.skip(12))) {
                Some(t) => Ok(
                    (
                        spec_option_code_of(spec_u32_from_be(b.skip(8))),
                        t,
                        b.subrange(20, 20 + len),
                        20 + len,
                    ),
                ),
                None => Err(DecodeError::Invalid),
            }
        }
    }
}

impl OptionReply {
    /// A reply is well formed when its code does not shadow the closed
    /// enumeration and its payload respects the length bound.
    pub open spec fn wf(&self) -> bool {
        spec_option_code_valid(self.option) && self.data@.len() <= NBD_MAX_PAYLOAD
    }

    /// Encodes this option reply.
    pub fn encode(&self) -> (r: Vec<u8>)
        requires
            self.data@.len() <= NBD_MAX_PAYLOAD,
        ensures
            r@ == spec_encode_option_reply(self.option, self.reply_type, self.data@),
    {
        let mut r: Vec<u8> = Vec::new();
        push_u64_be(&mut r, NBD_REP_MAGIC);
        push_u32_be(&mut r, self.option.number());
        push_u32_be(&mut r, self.reply_type.number());
        push_u32_be(&mut r, self.data.len() as u32);
        push_bytes(&mut r, &self.data);
        r
    }

    /// Decodes one option reply from the front of `buf`, returning it
    /// with the number of bytes consumed.
    pub fn decode(buf: &Vec<u8>) -> (r: Result<(OptionReply, usize), DecodeError>)
        ensures
            match r {
                Ok((rep, n)) => spec_decode_option_reply(buf@) == Ok::<_, DecodeError>(
                    (rep.option, rep.reply_type, rep.data@, n as int),
                ) && rep.wf(),
                Err(e) => spec_decode_option_reply(buf@) == Err::<
                    (OptionCode, ReplyType, Seq<u8>, int),
                    _,
                >(e),
            },
    {
        if buf.len() < 20 {
            return Err(DecodeError::Incomplete);
        }
        assert(buf@.skip(0) == buf@);
        if get_u64_be(buf, 0) != NBD_REP_MAGIC {
            return Err(DecodeError::BadMagic);
        }
        let len = get_u32_be(buf, 16);
        if len > NBD_MAX_PAYLOAD {
            return Err(DecodeError::TooLarge);
        }
        if buf.len() < 20 + len as usize {
            return Err(DecodeError::Incomplete);
        }
        let t = match ReplyType::from_number(get_u32_be(buf, 12)) {
            Some(t) => t,
            None => {
                return Err(DecodeError::Invalid);
            },
        };
        let code = OptionCode::from_number(get_u32_be(buf, 8));
        let data = copy_range(buf, 20, len as usize);
        Ok((OptionReply { option: code, reply_type: t, data }, 20 + len as usize))
    }
}

/// An option reply decodes back to the code, reply type and payload it
/// was encoded from.
pub proof fn lemma_option_reply_round_trip(code: OptionCode, t: ReplyType, payload: Seq<u8>)
    requires
        spec_option_code_valid(code),
        payload.len() <= NBD_MAX_PAYLOAD,
    ensures
        spec_decode_option_reply(spec_encode_option_reply(code, t, payload)) == Ok::<
            _,
            DecodeError,
        >((code, t, payload, 20 + payload.len() as int)),
{
    let b = spec_encode_option_reply(code, t, payload);
    assert(b.len() == 20 + payload.len());
    lemma_u64_be_round_trip(NBD_REP_MAGIC);
    assert(spec_u64_from_be(b) == NBD_REP_MAGIC);
    let nco = spec_option_code_number(code);
    let nt = spec_reply_type_number(t);
    assert(b.skip(8) =~= spec_u32_be(nco) + (spec_u32_be(nt) + (spec_u32_be(
        payload.len() as u32,
    ) + payload)));
    lemma_u32_be_round_trip(nco);
    assert(spec_u32_from_be(b.skip(8)) == nco);
    lemma_option_code_round_trip(code);
    assert(b.skip(12) =~= spec_u32_be(nt) + (spec_u32_be(payload.len() as u32) + payload));
    lemma_u32_be_round_trip(nt);
    assert(spec_u32_from_be(b.skip(12)) == nt);
    assert(b.skip(16) =~= spec_u32_be(payload.len() as u32) + payload);
    lemma_u32_be_round_trip(payload.len() as u32);
    assert(spec_u32_from_be(b.skip(16)) == payload.len());
    assert(b.subrange(20, 20 + payload.len() as int) =~= payload);
}

// ---------------------------------------------------------------------
// Meta-context request payload: an export name, then a counted run of
// length-prefixed query strings.
// ---------------------------------------------------------------------

/// Decodes `count` length-prefixed query strings from the front of `b`,
/// returning them with the number of bytes consumed.
pub open spec fn spec_decode_queries(b: Seq<u8>, count: int) -> Option<(Seq<Seq<u8>>, int)>
    decreases count,
{
    if count <= 0 {
        Some((Seq::empty(), 0))
    } else if b.len() < 4 {
        None
    } else {
        let l = spec_u32_from_be(b);
        if b.len() < 4 + l {
            None
        } else {
            match spec_decode_queries(b.skip(4 + l), count - 1) {
                Some((qs, c)) => Some((seq![b.subrange(4, 4 + l)] + qs, 4 + l + c)),
                None => None,
            }
        }
    }
}

/// Decodes a meta-context option payload: a length-prefixed export name,
/// a query count, and exactly that many length-prefixed query strings
/// filling the payload to its end.
pub open spec fn spec_decode_meta_request(b: Seq<u8>) -> Option<(Seq<u8>, Seq<Seq<u8>>)> {
    if b.len() < 4 {
        None
    } else {
        let nlen = spec_u32_from_be(b);
        if b.len() < 4 + nlen + 4 {
            None
        } else {
            let name = b.subrange(4, 4 + nlen);
            let count = spec_u32_from_be(b.skip(4 + nlen));
            match spec_decode_queries(b.skip(8 + nlen), count as int) {
                Some((qs, c)) => if 8 + nlen + c == b.len() {
                    Some((name, qs))
                } else {
                    None
                },
                None => None,
            }
        }
    }
}

/// The views of a run of byte strings.
pub open spec fn spec_query_views(qs: Seq<Vec<u8>>) -> Seq<Seq<u8>> {
    qs.map_values(|q: Vec<u8>| q@)
}

/// Decodes a meta-context option payload.
#[verifier::loop_isolation(false)]
pub fn decode_meta_request(b: &Vec<u8>) -> (r: Option<(Vec<u8>, Vec<Vec<u8>>)>)
    ensures
        match r {
            Some((name, qs)) => spec_decode_meta_request(b@) == Some(
                (name@, spec_query_views(qs@)),
            ),
            None => spec_decode_meta_request(b@) is None,
        },
{
    let n: usize = b.len();
    if n < 4 {
        return None;
    }
    assert(b@.skip(0) == b@);
    let nlen32 = get_u32_be(b, 0);
    if nlen32 as usize > n - 4 || n - 4 - (nlen32 as usize) < 4 {
        return None;
    }
    let nlen = nlen32 as usize;
    let name = copy_range(b, 4, nlen);
    let count = get_u32_be(b, 4 + nlen);
    let qstart: usize = 8 + nlen;
    let mut qs: Vec<Vec<u8>> = Vec::new();
    let mut off: usize = qstart;
    let mut k: u32 = 0;
    proof {
        assert(spec_query_views(qs@) =~= Seq::<Seq<u8>>::empty());
        match spec_decode_queries(b@.skip(qstart as int), count as int) {
            Some((rest, c)) => {
                assert(Seq::<Seq<u8>>::empty() + rest =~= rest);
            },
            None => {},
        }
    }
    while k < count
        invariant
            qstart <= off <= n,
            n == b@.len(),
            k <= count,
            spec_decode_queries(b@.skip(qstart as int), count as int) == (match spec_decode_queries(
                b@.skip(off as int),
                count - k,
            ) {
                Some((rest, c)) => Some::<(Seq<Seq<u8>>, int)>(
                    (spec_query_views(qs@) + rest, (off - qstart) + c),
                ),
                None => None::<(Seq<Seq<u8>>, int)>,
            }),
        decreases count - k,
    {
        if n - off < 4 {
            return None;
        }
        let l = get_u32_be(b, off);
        if l as usize > n - off - 4 {
            return None;
        }
        let q = copy_range(b, off + 4, l as usize);
        let ghost prev = qs@;
        let ghost rest0 = b@.skip(off as int);
        qs.push(q);
        proof {
            assert(rest0.subrange(4, 4 + l as int) =~= b@.subrange(off + 4, off + 4 + l as int));
            assert(rest0.skip(4 + l as int) =~= b@.skip(off + 4 + l as int));
            assert(spec_query_views(qs@) =~= spec_query_views(prev).push(q@));
            match spec_decode_queries(b@.skip(off + 4 + l as int), count - k - 1) {
                Some((rest1, c1)) => {
                    assert(spec_decode_queries(rest0, count - k) == Some::<(Seq<Seq<u8>>, int)>(
                        (seq![q@] + rest1, 4 + l + c1),
                    ));
                    assert(spec_query_views(prev) + (seq![q@] + rest1) =~= spec_query_views(qs@)
                        + rest1);
                },
                None => {
                    assert(spec_decode_queries(rest0, count - k) is None);
                },
            }
        }
        off = off + 4 + l as usize;
        k = k + 1;
    }
    if off != n {
        return None;
    }
    assert(spec_decode_queries(b@.skip(off as int), 0) == Some::<(Seq<Seq<u8>>, int)>(
        (Seq::empty(), 0),
    ));
    assert(spec_query_views(qs@) + Seq::<Seq<u8>>::empty() =~= spec_query_views(qs@));
    assert(b@.subrange(4, 4 + nlen as int) =~= name@);
    Some((name, qs))
}

} // verus!
