//! The option negotiator: the handshake and option-haggling state
//! machine for one connection.
//!
//! The negotiator is pure: it consumes decoded client input and produces
//! the replies to write and the action the connection driver must take.
//! The driver owns the socket; nothing here reads or writes bytes.

use vstd::prelude::*;
use crate::codec::{
    decode_meta_request, spec_decode_meta_request, spec_option_code_valid, spec_query_views,
    spec_reply_is_error, ClientOptionRequest, DecodeError, OptionCode, OptionReply, ReplyType,
};
use crate::consts::{NBD_INFO_BLOCK_SIZE, NBD_INFO_EXPORT, NBD_MAX_PAYLOAD};
use crate::directory::{
    clone_bytes, spec_has_export, spec_supports_context, Export, ExportDirectory,
    ExportView,
};
use crate::flags::{spec_client_flags_of_bits, spec_transmission_flag_bits, ClientHandshakeFlags};
use crate::wire::{
    push_bytes, push_u16_be, push_u32_be, push_u64_be, spec_u16_be, spec_u32_be, spec_u64_be,
};

verus! {

/// The protocol state of one connection.
#[derive(Clone, Copy, Debug, PartialEq, Eq, Structural)]
pub enum SessionState {
    /// The greeting was written; the 32-bit client flags are owed next.
    AwaitingClientFlags,
    /// Option haggling: one option request per iteration.
    Haggling,
    /// A TLS upgrade was acknowledged; the driver is upgrading the
    /// stream.
    TlsPending,
    /// An export was selected; the transmission engine takes over.
    ExportSelected,
    /// Terminal: the driver closes the connection.
    Aborted,
}

/// Whether negotiation ended in transmission or in teardown.
#[derive(Clone, Copy, Debug, PartialEq, Eq, Structural)]
pub enum InteractionResult {
    Abort,
    Continue,
}

/// The error taxonomy of the protocol core. Every variant is fatal to
/// its connection; recoverable conditions are answered with error
/// replies instead and never surface here.
#[derive(Clone, Copy, Debug, PartialEq, Eq, Structural)]
pub enum ProtocolError {
    /// A magic number did not match.
    BadMagic,
    /// Mandatory handshake flags were missing.
    ProtocolViolation,
    /// A length field exceeded the configured bound.
    DecodeTooLarge,
    /// `ExportName` named an export that does not exist.
    ExportNotFound,
    /// A frame was structurally invalid or cut short.
    InvalidFrame,
}

impl ProtocolError {
    /// The fatal error corresponding to a decode failure.
    pub fn from_decode(e: DecodeError) -> (r: ProtocolError)
        ensures
            r == match e {
                DecodeError::BadMagic => ProtocolError::BadMagic,
                DecodeError::TooLarge => ProtocolError::DecodeTooLarge,
                DecodeError::Incomplete => ProtocolError::InvalidFrame,
                DecodeError::Invalid => ProtocolError::InvalidFrame,
            },
    {
        match e {
            DecodeError::BadMagic => ProtocolError::BadMagic,
            DecodeError::TooLarge => ProtocolError::DecodeTooLarge,
            DecodeError::Incomplete => ProtocolError::InvalidFrame,
            DecodeError::Invalid => ProtocolError::InvalidFrame,
        }
    }
}

/// What the driver must do after one option was handled.
#[derive(Clone, Copy, Debug, PartialEq, Eq, Structural)]
pub enum HagglingAction {
    /// Write the replies, then read the next option.
    Continue,
    /// Write the replies, upgrade the stream, call
    /// [`Session::tls_started`], then read the next option.
    StartTls,
    /// Write the replies, then hand the connection to the transmission
    /// engine.
    EnterTransmission,
    /// Write the replies, then close the connection cleanly.
    CloseAbort,
    /// Close the connection at once; nothing is written.
    CloseFatal,
}

impl HagglingAction {
    /// The final verdict of negotiation, if this action ends it.
    pub fn verdict(&self) -> (r: Option<InteractionResult>)
        ensures
            r == match *self {
                HagglingAction::EnterTransmission => Some(InteractionResult::Continue),
                HagglingAction::CloseAbort => Some(InteractionResult::Abort),
                HagglingAction::CloseFatal => Some(InteractionResult::Abort),
                HagglingAction::Continue => None::<InteractionResult>,
                HagglingAction::StartTls => None::<InteractionResult>,
            },
    {
        match self {
            HagglingAction::EnterTransmission => Some(InteractionResult::Continue),
            HagglingAction::CloseAbort => Some(InteractionResult::Abort),
            HagglingAction::CloseFatal => Some(InteractionResult::Abort),
            HagglingAction::Continue => None,
            HagglingAction::StartTls => None,
        }
    }
}

/// One meta context the session has assigned an id to.
#[derive(Debug)]
pub struct MetaContextEntry {
    pub name: Vec<u8>,
    pub id: u32,
}

/// The meta contexts of one session: created empty, populated only by
/// `SetMetaContext`, consulted by block-status replies.
#[derive(Debug)]
pub struct MetaContextSet {
    pub entries: Vec<MetaContextEntry>,
}

/// The mutable state of one connection, exclusively owned by its
/// driver.
#[derive(Debug)]
pub struct Session {
    pub state: SessionState,
    pub client_flags: Option<ClientHandshakeFlags>,
    pub structured_replies: bool,
    pub selected_export: Option<Export>,
    pub meta_contexts: MetaContextSet,
    pub tls_available: bool,
    pub next_context_id: u32,
}

/// The result of handling one option: the replies to write, in order,
/// the action to take afterwards, and, for a fatal close, which error
/// class ended the connection.
pub struct HagglingOutcome {
    pub replies: Vec<OptionReply>,
    pub action: HagglingAction,
    pub fatal: Option<ProtocolError>,
}

// ---------------------------------------------------------------------
// Reply payloads of the negotiator.
// ---------------------------------------------------------------------

/// Payload of an export-info reply: info type, size, transmission flags.
pub open spec fn spec_export_info_payload(e: ExportView) -> Seq<u8> {
    spec_u16_be(NBD_INFO_EXPORT) + spec_u64_be(e.size_bytes) + spec_u16_be(
        spec_transmission_flag_bits(e.flags),
    )
}

/// Payload of a block-size-info reply: info type and the three bounds.
pub open spec fn spec_block_size_payload(e: ExportView) -> Seq<u8> {
    spec_u16_be(NBD_INFO_BLOCK_SIZE) + spec_u32_be(e.min_block_size) + spec_u32_be(
        e.preferred_block_size,
    ) + spec_u32_be(e.max_block_size)
}

/// Payload of one server-list entry: a length-prefixed export name.
pub open spec fn spec_server_list_payload(name: Seq<u8>) -> Seq<u8> {
    spec_u32_be(name.len() as u32) + name
}

/// Payload of one meta-context reply: the assigned id, then the name.
pub open spec fn spec_meta_reply_payload(id: u32, name: Seq<u8>) -> Seq<u8> {
    spec_u32_be(id) + name
}

/// An ack: a bare success reply addressed to `code`.
pub open spec fn spec_is_ack(r: OptionReply, code: OptionCode) -> bool {
    r.option == code && r.reply_type == ReplyType::Ack && r.data@.len() == 0
}

/// An error reply with an empty payload, addressed to `code`.
pub open spec fn spec_is_empty_error(r: OptionReply, code: OptionCode, t: ReplyType) -> bool {
    r.option == code && r.reply_type == t && spec_reply_is_error(t) && r.data@.len() == 0
}

/// `i` is the index of the first export named `name`.
pub open spec fn spec_first_export_match(exports: Seq<Export>, name: Seq<u8>, i: int) -> bool {
    0 <= i < exports.len() && exports[i]@.name == name && (forall|j: int|
        0 <= j < i ==> (#[trigger] exports[j])@.name != name)
}

/// Name lengths under which an export's replies can be framed.
pub open spec fn spec_export_wf(e: ExportView) -> bool {
    e.name.len() + 4 <= NBD_MAX_PAYLOAD && (forall|j: int|
        0 <= j < e.contexts.len() ==> (#[trigger] e.contexts[j]).len() + 4 <= NBD_MAX_PAYLOAD)
}

/// Every export of the directory is well formed.
pub open spec fn spec_exports_wf(exports: Seq<Export>) -> bool {
    forall|i: int| 0 <= i < exports.len() ==> spec_export_wf((#[trigger] exports[i])@)
}

/// The replies of a successful `Go` or `Info`: export info, block
/// sizes, ack.
pub open spec fn spec_go_info_replies(r: Seq<OptionReply>, code: OptionCode, e: ExportView) -> bool {
    &&& r.len() == 3
    &&& r[0].option == code
    &&& r[0].reply_type == ReplyType::Info
    &&& r[0].data@ == spec_export_info_payload(e)
    &&& r[1].option == code
    &&& r[1].reply_type == ReplyType::Info
    &&& r[1].data@ == spec_block_size_payload(e)
    &&& spec_is_ack(r[2], code)
}

/// The replies of `List`: one server entry per export, in directory
/// order, then an ack.
pub open spec fn spec_list_reply_seq(r: Seq<OptionReply>, exports: Seq<Export>) -> bool {
    &&& r.len() == exports.len() + 1
    &&& forall|i: int|
        0 <= i < exports.len() ==> (#[trigger] r[i]).option == OptionCode::List
            && r[i].reply_type == ReplyType::Server && r[i].data@ == spec_server_list_payload(
            exports[i]@.name,
        )
    &&& spec_is_ack(r[exports.len() as int], OptionCode::List)
}

/// The replies of a successful `ListMetaContext`: one entry per context
/// the export supports, unassigned (id zero), then an ack.
pub open spec fn spec_list_meta_reply_seq(r: Seq<OptionReply>, e: ExportView) -> bool {
    &&& r.len() == e.contexts.len() + 1
    &&& forall|i: int|
        0 <= i < e.contexts.len() ==> (#[trigger] r[i]).option == OptionCode::ListMetaContext
            && r[i].reply_type == ReplyType::MetaContext && r[i].data@ == spec_meta_reply_payload(
            0,
            e.contexts[i],
        )
    &&& spec_is_ack(r[e.contexts.len() as int], OptionCode::ListMetaContext)
}

/// The replies of a successful `SetMetaContext`: one entry per matched
/// query with sequential ids from `first_id`, then an ack.
pub open spec fn spec_set_meta_reply_seq(r: Seq<OptionReply>, m: Seq<Seq<u8>>, first_id: u32) -> bool {
    &&& r.len() == m.len() + 1
    &&& forall|i: int|
        0 <= i < m.len() ==> (#[trigger] r[i]).option == OptionCode::SetMetaContext
            && r[i].reply_type == ReplyType::MetaContext && r[i].data@ == spec_meta_reply_payload(
            (first_id + i) as u32,
            m[i],
        )
    &&& spec_is_ack(r[m.len() as int], OptionCode::SetMetaContext)
}

/// The queries the export recognizes, in query order. Unrecognized
/// names are silently omitted, never an error.
pub open spec fn spec_matched_queries(qs: Seq<Seq<u8>>, e: ExportView) -> Seq<Seq<u8>>
    decreases qs.len(),
{
    if qs.len() == 0 {
        Seq::empty()
    } else {
        let rest = spec_matched_queries(qs.skip(1), e);
        if spec_supports_context(e, qs[0]) {
            seq![qs[0]] + rest
        } else {
            rest
        }
    }
}

/// Appending one query appends its match, if it has one.
pub proof fn lemma_matched_queries_push(qs: Seq<Seq<u8>>, q: Seq<u8>, e: ExportView)
    ensures
        spec_matched_queries(qs.push(q), e) == if spec_supports_context(e, q) {
            spec_matched_queries(qs, e).push(q)
        } else {
            spec_matched_queries(qs, e)
        },
    decreases qs.len(),
{
    if qs.len() == 0 {
        let s = qs.push(q);
        assert(s[0] == q);
        assert(s.skip(1) =~= Seq::<Seq<u8>>::empty());
        assert(spec_matched_queries(qs, e) =~= Seq::<Seq<u8>>::empty());
        assert(spec_matched_queries(s.skip(1), e) =~= Seq::<Seq<u8>>::empty());
        if spec_supports_context(e, q) {
            assert(spec_matched_queries(s, e) =~= seq![q]);
            assert(spec_matched_queries(qs, e).push(q) =~= seq![q]);
        } else {
            assert(spec_matched_queries(s, e) =~= Seq::<Seq<u8>>::empty());
        }
    } else {
        assert(qs.push(q).skip(1) =~= qs.skip(1).push(q));
        lemma_matched_queries_push(qs.skip(1), q, e);
        assert(qs.push(q)[0] == qs[0]);
        if spec_supports_context(e, qs[0]) {
            if spec_supports_context(e, q) {
                assert(seq![qs[0]] + spec_matched_queries(qs.skip(1), e).push(q)
                    =~= (seq![qs[0]] + spec_matched_queries(qs.skip(1), e)).push(q));
            }
        }
    }
}

/// Tests [`spec_export_wf`], so that a caller can establish it before
/// negotiating over a directory it assembled.
#[verifier::loop_isolation(false)]
pub fn export_wf_check(e: &Export) -> (r: bool)
    ensures
        r == spec_export_wf(e@),
{
    if !(e.name.len() <= (NBD_MAX_PAYLOAD - 4) as usize) {
        return false;
    }
    let n: usize = e.contexts.len();
    let mut i: usize = 0;
    while i < n
        invariant
            i <= n,
            forall|j: int| 0 <= j < i ==> (#[trigger] e@.contexts[j]).len() + 4 <= NBD_MAX_PAYLOAD,
        decreases n - i,
    {
        assert(e@.contexts[i as int] == e.contexts@[i as int]@);
        if !(e.contexts[i].len() <= (NBD_MAX_PAYLOAD - 4) as usize) {
            return false;
        }
        i = i + 1;
    }
    true
}

/// Tests [`spec_exports_wf`] over a whole directory.
#[verifier::loop_isolation(false)]
pub fn exports_wf_check(dir: &ExportDirectory) -> (r: bool)
    ensures
        r == spec_exports_wf(dir.exports@),
{
    let n: usize = dir.exports.len();
    let mut i: usize = 0;
    while i < n
        invariant
            i <= n,
            forall|j: int| 0 <= j < i ==> spec_export_wf((#[trigger] dir.exports@[j])@),
        decreases n - i,
    {
        if !export_wf_check(&dir.exports[i]) {
            return false;
        }
        i = i + 1;
    }
    true
}

// ---------------------------------------------------------------------
// Reply constructors.
// ---------------------------------------------------------------------

/// A bare success reply addressed to `code`.
pub fn ack_reply(code: OptionCode) -> (r: OptionReply)
    ensures
        spec_is_ack(r, code),
        spec_option_code_valid(code) ==> r.wf(),
{
    OptionReply { option: code, reply_type: ReplyType::Ack, data: Vec::new() }
}

/// An error reply with an empty payload, addressed to `code`.
pub fn error_reply(code: OptionCode, t: ReplyType) -> (r: OptionReply)
    requires
        spec_reply_is_error(t),
    ensures
        spec_is_empty_error(r, code, t),
        spec_option_code_valid(code) ==> r.wf(),
{
    OptionReply { option: code, reply_type: t, data: Vec::new() }
}

/// Builds the payload of an export-info reply.
pub fn export_info_payload(e: &Export) -> (r: Vec<u8>)
    ensures
        r@ == spec_export_info_payload(e@),
{
    let mut r: Vec<u8> = Vec::new();
    push_u16_be(&mut r, NBD_INFO_EXPORT);
    push_u64_be(&mut r, e.size_bytes);
    push_u16_be(&mut r, e.flags.to_bits());
    r
}

/// Builds the payload of a block-size-info reply.
pub fn block_size_payload(e: &Export) -> (r: Vec<u8>)
    ensures
        r@ == spec_block_size_payload(e@),
{
    let mut r: Vec<u8> = Vec::new();
    push_u16_be(&mut r, NBD_INFO_BLOCK_SIZE);
    push_u32_be(&mut r, e.min_block_size);
    push_u32_be(&mut r, e.preferred_block_size);
    push_u32_be(&mut r, e.max_block_size);
    r
}

/// Builds the payload of one server-list entry.
pub fn server_list_payload(name: &Vec<u8>) -> (r: Vec<u8>)
    requires
        name@.len() + 4 <= NBD_MAX_PAYLOAD,
    ensures
        r@ == spec_server_list_payload(name@),
{
    let mut r: Vec<u8> = Vec::new();
    push_u32_be(&mut r, name.len() as u32);
    push_bytes(&mut r, name);
    r
}

/// Builds the payload of one meta-context reply.
pub fn meta_reply_payload(id: u32, name: &Vec<u8>) -> (r: Vec<u8>)
    requires
        name@.len() + 4 <= NBD_MAX_PAYLOAD,
    ensures
        r@ == spec_meta_reply_payload(id, name@),
{
    let mut r: Vec<u8> = Vec::new();
    push_u32_be(&mut r, id);
    push_bytes(&mut r, name);
    r
}

/// The replies of a successful `Go` or `Info`.
pub fn go_info_replies(code: OptionCode, e: &Export) -> (r: Vec<OptionReply>)
    requires
        spec_option_code_valid(code),
    ensures
        spec_go_info_replies(r@, code, e@),
        forall|i: int| 0 <= i < r@.len() ==> (#[trigger] r@[i]).option == code && r@[i].wf(),
{
    let mut r: Vec<OptionReply> = Vec::new();
    r.push(OptionReply { option: code, reply_type: ReplyType::Info, data: export_info_payload(e) });
    r.push(OptionReply { option: code, reply_type: ReplyType::Info, data: block_size_payload(e) });
    r.push(ack_reply(code));
    r
}

/// The replies of `List`: one entry per export, in directory order,
/// then an ack.
#[verifier::loop_isolation(false)]
pub fn list_replies(dir: &ExportDirectory) -> (r: Vec<OptionReply>)
    requires
        spec_exports_wf(dir.exports@),
    ensures
        spec_list_reply_seq(r@, dir.exports@),
        forall|i: int|
            0 <= i < r@.len() ==> (#[trigger] r@[i]).option == OptionCode::List && r@[i].wf(),
{
    let mut r: Vec<OptionReply> = Vec::new();
    let n: usize = dir.exports.len();
    let mut i: usize = 0;
    while i < n
        invariant
            i <= n,
            r@.len() == i,
            forall|j: int|
                0 <= j < i ==> (#[trigger] r@[j]).option == OptionCode::List && r@[j].reply_type
                    == ReplyType::Server && r@[j].data@ == spec_server_list_payload(
                    dir.exports@[j]@.name,
                ) && r@[j].wf(),
        decreases n - i,
    {
        let payload = server_list_payload(&dir.exports[i].name);
        r.push(OptionReply { option: OptionCode::List, reply_type: ReplyType::Server, data: payload });
        i = i + 1;
    }
    r.push(ack_reply(OptionCode::List));
    r
}

/// The replies of a successful `ListMetaContext`.
#[verifier::loop_isolation(false)]
pub fn list_meta_replies(e: &Export) -> (r: Vec<OptionReply>)
    requires
        spec_export_wf(e@),
    ensures
        spec_list_meta_reply_seq(r@, e@),
        forall|i: int|
            0 <= i < r@.len() ==> (#[trigger] r@[i]).option == OptionCode::ListMetaContext
                && r@[i].wf(),
{
    let mut r: Vec<OptionReply> = Vec::new();
    let n: usize = e.contexts.len();
    let mut i: usize = 0;
    while i < n
        invariant
            i <= n,
            r@.len() == i,
            forall|j: int|
                0 <= j < i ==> (#[trigger] r@[j]).option == OptionCode::ListMetaContext
                    && r@[j].reply_type == ReplyType::MetaContext && r@[j].data@
                    == spec_meta_reply_payload(0, e@.contexts[j]) && r@[j].wf(),
        decreases n - i,
    {
        assert(e@.contexts[i as int] == e.contexts@[i as int]@);
        let payload = meta_reply_payload(0, &e.contexts[i]);
        r.push(
            OptionReply {
                option: OptionCode::ListMetaContext,
                reply_type: ReplyType::MetaContext,
                data: payload,
            },
        );
        i = i + 1;
    }
    r.push(ack_reply(OptionCode::ListMetaContext));
    r
}

// ---------------------------------------------------------------------
// The session itself.
// ---------------------------------------------------------------------

impl Session {
    /// The session invariant: an export is recorded whenever the
    /// session has entered the export-selected state. Every method
    /// preserves it.
    pub open spec fn wf(&self) -> bool {
        self.state == SessionState::ExportSelected ==> self.selected_export is Some
    }

    /// A fresh session, before any client byte was read.
    pub fn new(tls_available: bool) -> (r: Session)
        ensures
            r.state == SessionState::AwaitingClientFlags,
            r.client_flags is None,
            !r.structured_replies,
            r.selected_export is None,
            r.meta_contexts.entries@.len() == 0,
            r.tls_available == tls_available,
            r.next_context_id == 1,
            r.wf(),
    {
        Session {
            state: SessionState::AwaitingClientFlags,
            client_flags: None,
            structured_replies: false,
            selected_export: None,
            meta_contexts: MetaContextSet { entries: Vec::new() },
            tls_available,
            next_context_id: 1,
        }
    }

    /// Checks the 32-bit client flags word. Both mandatory bits must be
    /// echoed, else the connection is fatally invalid and nothing more
    /// is read from it.
    pub fn process_client_flags(&mut self, bits: u32) -> (r: Result<(), ProtocolError>)
        requires
            old(self).state == SessionState::AwaitingClientFlags,
        ensures
            r is Ok <==> (bits & 1 != 0 && bits & 2 != 0),
            r is Ok ==> *final(self) == (Session {
                state: SessionState::Haggling,
                client_flags: Some(spec_client_flags_of_bits(bits)),
                ..*old(self)
            }),
            r is Err ==> r == Err::<(), ProtocolError>(ProtocolError::ProtocolViolation) && *final(self) == (Session { state: SessionState::Aborted, ..*old(self) }),
            final(self).wf(),
    {
        let flags = ClientHandshakeFlags::from_bits(bits);
        if flags.fixed_newstyle && flags.no_zeroes {
            self.state = SessionState::Haggling;
            self.client_flags = Some(flags);
            Ok(())
        } else {
            self.state = SessionState::Aborted;
            Err(ProtocolError::ProtocolViolation)
        }
    }

    /// Resumes haggling after the driver upgraded the stream to TLS.
    pub fn tls_started(&mut self)
        requires
            old(self).state == SessionState::TlsPending,
        ensures
            *final(self) == (Session { state: SessionState::Haggling, ..*old(self) }),
            final(self).wf(),
    {
        self.state = SessionState::Haggling;
    }

    /// Assigns ids to the recognized queries and answers each, then
    /// acks. Unrecognized queries are silently omitted. When the id
    /// space cannot seat every match, nothing is assigned and the
    /// request is answered with one invalid-reply.
    #[verifier::loop_isolation(false)]
    fn set_meta(&mut self, e: &Export, queries: &Vec<Vec<u8>>) -> (r: Vec<OptionReply>)
        requires
            spec_export_wf(e@),
        ensures
            ({
                let m = spec_matched_queries(spec_query_views(queries@), e@);
                if old(self).next_context_id + m.len() <= u32::MAX {
                    &&& spec_set_meta_reply_seq(r@, m, old(self).next_context_id)
                    &&& final(self).next_context_id == old(self).next_context_id + m.len()
                    &&& final(self).meta_contexts.entries@.len() == old(self).meta_contexts.entries@.len() + m.len()
                    &&& forall|k: int|
                        0 <= k < old(self).meta_contexts.entries@.len() ==> #[trigger] final(self).meta_contexts.entries@[k] == old(self).meta_contexts.entries@[k]
                    &&& forall|k: int|
                        0 <= k < m.len() ==> (#[trigger] final(self).meta_contexts.entries@[old(self).meta_contexts.entries@.len() + k]).name@ == m[k] && final(self).meta_contexts.entries@[old(self).meta_contexts.entries@.len() + k].id
                            == old(self).next_context_id + k
                } else {
                    &&& r@.len() == 1
                    &&& spec_is_empty_error(
                        r@[0],
                        OptionCode::SetMetaContext,
                        ReplyType::ErrInvalid,
                    )
                    &&& *final(self) == *old(self)
                }
            }),
            forall|i: int| 0 <= i < r@.len() ==> (#[trigger] r@[i]).option == OptionCode::SetMetaContext && r@[i].wf(),
            final(self).state == old(self).state,
            final(self).client_flags == old(self).client_flags,
            final(self).structured_replies == old(self).structured_replies,
            final(self).selected_export == old(self).selected_export,
            final(self).tls_available == old(self).tls_available,
    {
        let ghost qviews = spec_query_views(queries@);
        let mut matched: Vec<Vec<u8>> = Vec::new();
        let nq: usize = queries.len();
        let mut i: usize = 0;
        proof {
            assert(qviews.take(0) =~= Seq::<Seq<u8>>::empty());
            assert(spec_query_views(matched@) =~= Seq::<Seq<u8>>::empty());
        }
        while i < nq
            invariant
                i <= nq,
                spec_query_views(matched@) == spec_matched_queries(qviews.take(i as int), e@),
                forall|k: int|
                    0 <= k < matched@.len() ==> spec_supports_context(
                        e@,
                        (#[trigger] matched@[k])@,
                    ) && matched@[k]@.len() + 4 <= NBD_MAX_PAYLOAD,
            decreases nq - i,
        {
            let ghost prevm = matched@;
            if e.supports_context(&queries[i]) {
                matched.push(clone_bytes(&queries[i]));
                assert(spec_query_views(matched@) =~= spec_query_views(prevm).push(
                    queries@[i as int]@,
                ));
            }
            proof {
                lemma_matched_queries_push(qviews.take(i as int), qviews[i as int], e@);
                assert(qviews.take(i + 1) =~= qviews.take(i as int).push(qviews[i as int]));
            }
            i = i + 1;
        }
        assert(qviews.take(nq as int) =~= qviews);
        let ghost m = spec_matched_queries(qviews, e@);
        assert(m.len() == matched@.len());
        if matched.len() as u64 > (u32::MAX - self.next_context_id) as u64 {
            let mut r: Vec<OptionReply> = Vec::new();
            r.push(error_reply(OptionCode::SetMetaContext, ReplyType::ErrInvalid));
            return r;
        }
        let first_id: u32 = self.next_context_id;
        let nm: usize = matched.len();
        let mut r: Vec<OptionReply> = Vec::new();
        let mut k: usize = 0;
        let ghost entries0 = self.meta_contexts.entries@;
        while k < nm
            invariant
                k <= nm,
                r@.len() == k,
                self.state == old(self).state,
                self.client_flags == old(self).client_flags,
                self.structured_replies == old(self).structured_replies,
                self.selected_export == old(self).selected_export,
                self.tls_available == old(self).tls_available,
                self.next_context_id == first_id + k,
                self.meta_contexts.entries@.len() == entries0.len() + k,
                forall|j: int|
                    0 <= j < entries0.len() ==> #[trigger] self.meta_contexts.entries@[j]
                        == entries0[j],
                forall|j: int|
                    0 <= j < k ==> (#[trigger] self.meta_contexts.entries@[entries0.len() + j]).name@
                        == m[j] && self.meta_contexts.entries@[entries0.len() + j].id == first_id
                        + j,
                forall|j: int|
                    0 <= j < k ==> (#[trigger] r@[j]).option == OptionCode::SetMetaContext
                        && r@[j].reply_type == ReplyType::MetaContext && r@[j].data@
                        == spec_meta_reply_payload((first_id + j) as u32, m[j]) && r@[j].wf(),
            decreases nm - k,
        {
            assert(matched@[k as int]@ == m[k as int]);
            let id: u32 = self.next_context_id;
            let payload = meta_reply_payload(id, &matched[k]);
            r.push(
                OptionReply {
                    option: OptionCode::SetMetaContext,
                    reply_type: ReplyType::MetaContext,
                    data: payload,
                },
            );
            self.meta_contexts.entries.push(
                MetaContextEntry { name: clone_bytes(&matched[k]), id },
            );
            self.next_context_id = self.next_context_id + 1;
            k = k + 1;
        }
        r.push(ack_reply(OptionCode::SetMetaContext));
        r
    }

    /// Handles one option request during haggling: dispatches on the
    /// code, produces the replies to write, records the state change,
    /// and tells the driver what to do next. Unknown codes are answered
    /// with exactly one error-flagged reply and haggling continues;
    /// only `Abort` and a failed `ExportName` end the connection here.
    pub fn handle_option(&mut self, dir: &ExportDirectory, req: &ClientOptionRequest) -> (r:
        HagglingOutcome)
        requires
            old(self).state == SessionState::Haggling,
            req.wf(),
            spec_exports_wf(dir.exports@),
        ensures
            forall|i: int|
                0 <= i < r.replies@.len() ==> (#[trigger] r.replies@[i]).option == req.option
                    && r.replies@[i].wf(),
            r.fatal == if req.option == OptionCode::ExportName && !spec_has_export(
                dir.exports@,
                req.data@,
            ) {
                Some(ProtocolError::ExportNotFound)
            } else {
                None::<ProtocolError>
            },
            final(self).tls_available == old(self).tls_available,
            final(self).client_flags == old(self).client_flags,
            old(self).structured_replies ==> final(self).structured_replies,
            r.action == HagglingAction::Continue ==> final(self).state == SessionState::Haggling,
            r.action == HagglingAction::StartTls ==> final(self).state == SessionState::TlsPending,
            r.action == HagglingAction::EnterTransmission ==> final(self).state
                == SessionState::ExportSelected && final(self).selected_export is Some,
            r.action == HagglingAction::CloseAbort || r.action == HagglingAction::CloseFatal ==> final(self).state == SessionState::Aborted,
            final(self).wf(),
            match req.option {
                OptionCode::Abort => r.replies@.len() == 1 && spec_is_ack(
                    r.replies@[0],
                    OptionCode::Abort,
                ) && r.action == HagglingAction::CloseAbort && *final(self) == (Session {
                    state: SessionState::Aborted,
                    ..*old(self)
                }),
                OptionCode::ExportName => if spec_has_export(dir.exports@, req.data@) {
                    &&& r.replies@.len() == 0
                    &&& r.action == HagglingAction::EnterTransmission
                    &&& exists|i: int|
                        spec_first_export_match(dir.exports@, req.data@, i) && (#[trigger] dir.exports@[i])@
                            == final(self).selected_export.unwrap()@
                    &&& *final(self) == (Session {
                        state: SessionState::ExportSelected,
                        selected_export: final(self).selected_export,
                        ..*old(self)
                    })
                } else {
                    &&& r.replies@.len() == 0
                    &&& r.action == HagglingAction::CloseFatal
                    &&& *final(self) == (Session { state: SessionState::Aborted, ..*old(self) })
                },
                OptionCode::Go => if spec_has_export(dir.exports@, req.data@) {
                    &&& r.action == HagglingAction::EnterTransmission
                    &&& exists|i: int|
                        spec_first_export_match(dir.exports@, req.data@, i)
                            && spec_go_info_replies(
                            r.replies@,
                            OptionCode::Go,
                            (#[trigger] dir.exports@[i])@,
                        ) && dir.exports@[i]@ == final(self).selected_export.unwrap()@
                    &&& *final(self) == (Session {
                        state: SessionState::ExportSelected,
                        selected_export: final(self).selected_export,
                        ..*old(self)
                    })
                } else {
                    &&& r.replies@.len() == 1
                    &&& spec_is_empty_error(r.replies@[0], OptionCode::Go, ReplyType::ErrUnknown)
                    &&& r.action == HagglingAction::Continue
                    &&& *final(self) == *old(self)
                },
                OptionCode::Info => if spec_has_export(dir.exports@, req.data@) {
                    &&& r.action == HagglingAction::Continue
                    &&& exists|i: int|
                        spec_first_export_match(dir.exports@, req.data@, i)
                            && spec_go_info_replies(
                            r.replies@,
                            OptionCode::Info,
                            (#[trigger] dir.exports@[i])@,
                        )
                    &&& *final(self) == *old(self)
                } else {
                    &&& r.replies@.len() == 1
                    &&& spec_is_empty_error(r.replies@[0], OptionCode::Info, ReplyType::ErrUnknown)
                    &&& r.action == HagglingAction::Continue
                    &&& *final(self) == *old(self)
                },
                OptionCode::List => spec_list_reply_seq(r.replies@, dir.exports@) && r.action
                    == HagglingAction::Continue && *final(self) == *old(self),
                OptionCode::StartTls => if old(self).tls_available {
                    &&& r.replies@.len() == 1
                    &&& spec_is_ack(r.replies@[0], OptionCode::StartTls)
                    &&& r.action == HagglingAction::StartTls
                    &&& *final(self) == (Session { state: SessionState::TlsPending, ..*old(self) })
                } else {
                    &&& r.replies@.len() == 1
                    &&& spec_is_empty_error(
                        r.replies@[0],
                        OptionCode::StartTls,
                        ReplyType::ErrPolicy,
                    )
                    &&& r.action == HagglingAction::Continue
                    &&& *final(self) == *old(self)
                },
                OptionCode::StructuredReply => r.replies@.len() == 1 && spec_is_ack(
                    r.replies@[0],
                    OptionCode::StructuredReply,
                ) && r.action == HagglingAction::Continue && *final(self) == (Session {
                    structured_replies: true,
                    ..*old(self)
                }),
                OptionCode::ListMetaContext => match spec_decode_meta_request(req.data@) {
                    Option::None => r.replies@.len() == 1 && spec_is_empty_error(
                        r.replies@[0],
                        OptionCode::ListMetaContext,
                        ReplyType::ErrInvalid,
                    ) && r.action == HagglingAction::Continue && *final(self) == *old(self),
                    Option::Some((name, _qs)) => if spec_has_export(dir.exports@, name) {
                        &&& exists|i: int|
                            spec_first_export_match(dir.exports@, name, i)
                                && spec_list_meta_reply_seq(
                                r.replies@,
                                (#[trigger] dir.exports@[i])@,
                            )
                        &&& r.action == HagglingAction::Continue
                        &&& *final(self) == *old(self)
                    } else {
                        &&& r.replies@.len() == 1
                        &&& spec_is_empty_error(
                            r.replies@[0],
                            OptionCode::ListMetaContext,
                            ReplyType::ErrUnknown,
                        )
                        &&& r.action == HagglingAction::Continue
                        &&& *final(self) == *old(self)
                    },
                },
                OptionCode::SetMetaContext => match spec_decode_meta_request(req.data@) {
                    Option::None => r.replies@.len() == 1 && spec_is_empty_error(
                        r.replies@[0],
                        OptionCode::SetMetaContext,
                        ReplyType::ErrInvalid,
                    ) && r.action == HagglingAction::Continue && *final(self) == *old(self),
                    Option::Some((name, qs)) => if spec_has_export(dir.exports@, name) {
                        &&& r.action == HagglingAction::Continue
                        &&& exists|i: int|
                            spec_first_export_match(dir.exports@, name, i) && ({
                                let m = spec_matched_queries(qs, (#[trigger] dir.exports@[i])@);
                                if old(self).next_context_id + m.len() <= u32::MAX {
                                    &&& spec_set_meta_reply_seq(
                                        r.replies@,
                                        m,
                                        old(self).next_context_id,
                                    )
                                    &&& final(self).next_context_id == old(self).next_context_id
                                        + m.len()
                                    &&& final(self).meta_contexts.entries@.len() == old(self).meta_contexts.entries@.len() + m.len()
                                    &&& forall|k: int|
                                        0 <= k < m.len() ==> (#[trigger] final(self).meta_contexts.entries@[old(self).meta_contexts.entries@.len() + k]).name@ == m[k] && final(self).meta_contexts.entries@[old(self).meta_contexts.entries@.len() + k].id == old(self).next_context_id + k
                                } else {
                                    r.replies@.len() == 1 && spec_is_empty_error(
                                        r.replies@[0],
                                        OptionCode::SetMetaContext,
                                        ReplyType::ErrInvalid,
                                    ) && *final(self) == *old(self)
                                }
                            })
                        &&& final(self).state == SessionState::Haggling
                        &&& final(self).structured_replies == old(self).structured_replies
                        &&& final(self).selected_export == old(self).selected_export
                    } else {
                        &&& r.replies@.len() == 1
                        &&& spec_is_empty_error(
                            r.replies@[0],
                            OptionCode::SetMetaContext,
                            ReplyType::ErrUnknown,
                        )
                        &&& r.action == HagglingAction::Continue
                        &&& *final(self) == *old(self)
                    },
                },
                OptionCode::Unknown(_) => r.replies@.len() == 1 && spec_is_empty_error(
                    r.replies@[0],
                    req.option,
                    ReplyType::ErrUnsupported,
                ) && r.action == HagglingAction::Continue && *final(self) == *old(self),
            },
    {
        match req.option {
            OptionCode::Abort => {
                self.state = SessionState::Aborted;
                let mut replies: Vec<OptionReply> = Vec::new();
                replies.push(ack_reply(OptionCode::Abort));
                HagglingOutcome { fatal: None, replies, action: HagglingAction::CloseAbort }
            },
            OptionCode::ExportName => {
                match dir.lookup(&req.data) {
                    Some(i) => {
                        self.selected_export = Some(dir.exports[i].duplicate());
                        self.state = SessionState::ExportSelected;
                        assert(spec_first_export_match(dir.exports@, req.data@, i as int));
                        HagglingOutcome {
                            replies: Vec::new(),
                            action: HagglingAction::EnterTransmission,
                            fatal: None,
                        }
                    },
                    None => {
                        self.state = SessionState::Aborted;
                        HagglingOutcome {
                            fatal: Some(ProtocolError::ExportNotFound),
                            replies: Vec::new(),
                            action: HagglingAction::CloseFatal,
                        }
                    },
                }
            },
            OptionCode::Go => {
                match dir.lookup(&req.data) {
                    Some(i) => {
                        let replies = go_info_replies(OptionCode::Go, &dir.exports[i]);
                        self.selected_export = Some(dir.exports[i].duplicate());
                        self.state = SessionState::ExportSelected;
                        assert(spec_first_export_match(dir.exports@, req.data@, i as int));
                        HagglingOutcome { fatal: None, replies, action: HagglingAction::EnterTransmission }
                    },
                    None => {
                        let mut replies: Vec<OptionReply> = Vec::new();
                        replies.push(error_reply(OptionCode::Go, ReplyType::ErrUnknown));
                        HagglingOutcome { fatal: None, replies, action: HagglingAction::Continue }
                    },
                }
            },
            OptionCode::Info => {
                match dir.lookup(&req.data) {
                    Some(i) => {
                        let replies = go_info_replies(OptionCode::Info, &dir.exports[i]);
                        assert(spec_first_export_match(dir.exports@, req.data@, i as int));
                        HagglingOutcome { fatal: None, replies, action: HagglingAction::Continue }
                    },
                    None => {
                        let mut replies: Vec<OptionReply> = Vec::new();
                        replies.push(error_reply(OptionCode::Info, ReplyType::ErrUnknown));
                        HagglingOutcome { fatal: None, replies, action: HagglingAction::Continue }
                    },
                }
            },
            OptionCode::List => {
                HagglingOutcome { fatal: None, replies: list_replies(dir), action: HagglingAction::Continue }
            },
            OptionCode::StartTls => {
                if self.tls_available {
                    self.state = SessionState::TlsPending;
                    let mut replies: Vec<OptionReply> = Vec::new();
                    replies.push(ack_reply(OptionCode::StartTls));
                    HagglingOutcome { fatal: None, replies, action: HagglingAction::StartTls }
                } else {
                    let mut replies: Vec<OptionReply> = Vec::new();
                    replies.push(error_reply(OptionCode::StartTls, ReplyType::ErrPolicy));
                    HagglingOutcome { fatal: None, replies, action: HagglingAction::Continue }
                }
            },
            OptionCode::StructuredReply => {
                self.structured_replies = true;
                let mut replies: Vec<OptionReply> = Vec::new();
                replies.push(ack_reply(OptionCode::StructuredReply));
                HagglingOutcome { fatal: None, replies, action: HagglingAction::Continue }
            },
            OptionCode::ListMetaContext => {
                match decode_meta_request(&req.data) {
                    Some((name, _queries)) => {
                        match dir.lookup(&name) {
                            Some(i) => {
                                let replies = list_meta_replies(&dir.exports[i]);
                                assert(spec_first_export_match(dir.exports@, name@, i as int));
                                HagglingOutcome { fatal: None, replies, action: HagglingAction::Continue }
                            },
                            None => {
                                let mut replies: Vec<OptionReply> = Vec::new();
                                replies.push(
                                    error_reply(OptionCode::ListMetaContext, ReplyType::ErrUnknown),
                                );
                                HagglingOutcome { fatal: None, replies, action: HagglingAction::Continue }
                            },
                        }
                    },
                    None => {
                        let mut replies: Vec<OptionReply> = Vec::new();
                        replies.push(error_reply(OptionCode::ListMetaContext, ReplyType::ErrInvalid));
                        HagglingOutcome { fatal: None, replies, action: HagglingAction::Continue }
                    },
                }
            },
            OptionCode::SetMetaContext => {
                match decode_meta_request(&req.data) {
                    Some((name, queries)) => {
                        match dir.lookup(&name) {
                            Some(i) => {
                                let replies = self.set_meta(&dir.exports[i], &queries);
                                assert(spec_first_export_match(dir.exports@, name@, i as int));
                                HagglingOutcome { fatal: None, replies, action: HagglingAction::Continue }
                            },
                            None => {
                                let mut replies: Vec<OptionReply> = Vec::new();
                                replies.push(
                                    error_reply(OptionCode::SetMetaContext, ReplyType::ErrUnknown),
                                );
                                HagglingOutcome { fatal: None, replies, action: HagglingAction::Continue }
                            },
                        }
                    },
                    None => {
                        let mut replies: Vec<OptionReply> = Vec::new();
                        replies.push(error_reply(OptionCode::SetMetaContext, ReplyType::ErrInvalid));
                        HagglingOutcome { fatal: None, replies, action: HagglingAction::Continue }
                    },
                }
            },
            OptionCode::Unknown(_) => {
                let mut replies: Vec<OptionReply> = Vec::new();
                replies.push(error_reply(req.option, ReplyType::ErrUnsupported));
                HagglingOutcome { fatal: None, replies, action: HagglingAction::Continue }
            },
        }
    }
}

} // verus!
