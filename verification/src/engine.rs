//! The transmission engine: converts decoded transmission requests into
//! storage operations and turns storage outcomes into replies.
//!
//! The engine is pure. The connection driver performs the storage
//! operation this module asks for and hands the outcome back; the engine
//! decides the exact reply, simple or structured, for every outcome.
//! Requests complete in order: the reply to each request is built and
//! written before the next request is read, a deliberate restriction of
//! this design.

use vstd::prelude::*;
use crate::chunks::{
    spec_chunk_payload_valid, ChunkPayload, ChunkPayloadView, CmdType, SimpleReply,
    StructuredReplyChunk, StatusDescriptor, TransmissionRequest,
    spec_encode_chunk, spec_encode_simple_reply,
};
use crate::consts::{
    NBD_EINVAL, NBD_EOVERFLOW, NBD_EPERM, NBD_MAX_PAYLOAD, NBD_STATE_HOLE, NBD_STATE_ZERO,
};
use crate::directory::{clone_bytes, Export};
use crate::wire::push_bytes;

verus! {

/// One operation the driver must perform against the storage
/// collaborator of the selected export.
#[derive(Debug)]
pub enum StorageOp {
    Read { offset: u64, length: u32, df: bool },
    Write { offset: u64, data: Vec<u8>, fua: bool },
    Flush,
    Trim { offset: u64, length: u32 },
    WriteZeroes { offset: u64, length: u32, fua: bool, no_hole: bool, fast_zero: bool },
    BlockStatus { offset: u64, length: u32, req_one: bool },
    Disconnect,
}

/// The outcome the driver hands back after performing a storage
/// operation.
#[derive(Debug)]
pub enum StorageResult {
    /// A read returned this data.
    Data(Vec<u8>),
    /// A write-family operation or flush completed.
    Done,
    /// A block-status query returned these runs, in order.
    Status(Vec<StatusDescriptor>),
    /// The operation failed with this error number.
    Failed(u32),
}

/// The reply owed for one transmission request.
#[derive(Debug)]
pub enum EngineReply {
    Simple(SimpleReply),
    Chunks(Vec<StructuredReplyChunk>),
}

/// The request window `[offset, offset + length)` lies inside a device
/// of `size` bytes.
pub open spec fn spec_in_range(offset: u64, length: u32, size: u64) -> bool {
    offset <= size && length <= size - offset
}

/// A chunk sequence is well formed for `handle`: it is not empty, every
/// chunk carries `handle`, and exactly the last chunk carries the DONE
/// flag.
pub open spec fn spec_chunks_wf(chunks: Seq<StructuredReplyChunk>, handle: u64) -> bool {
    &&& chunks.len() >= 1
    &&& forall|i: int| 0 <= i < chunks.len() ==> (#[trigger] chunks[i])@.handle == handle
    &&& forall|i: int|
        0 <= i < chunks.len() ==> ((#[trigger] chunks[i])@.done <==> i == chunks.len() - 1)
}

/// Every chunk payload of the sequence respects the framing bounds.
pub open spec fn spec_chunks_valid(chunks: Seq<StructuredReplyChunk>) -> bool {
    forall|i: int| 0 <= i < chunks.len() ==> spec_chunk_payload_valid((#[trigger] chunks[i])@.payload)
}

/// A block-status descriptor for a run of `length` bytes: a hole also
/// reads as zero.
pub fn descriptor(length: u32, is_hole: bool) -> (r: StatusDescriptor)
    ensures
        r.length == length,
        r.status == if is_hole {
            (NBD_STATE_HOLE | NBD_STATE_ZERO)
        } else {
            0u32
        },
{
    StatusDescriptor {
        length,
        status: if is_hole {
            NBD_STATE_HOLE | NBD_STATE_ZERO
        } else {
            0
        },
    }
}

/// Checks one transmission request against the selected export and
/// names the storage operation it asks for. An out-of-range window is
/// answered with `EINVAL`, a write-family command on a read-only export
/// with `EPERM`, a read too large to frame with `EOVERFLOW`, and an
/// unknown command with `EINVAL`; the connection stays open in every
/// error case.
pub fn validate_request(req: &TransmissionRequest, export: &Export) -> (r: Result<StorageOp, u32>)
    requires
        req.wf(),
    ensures
        match req.cmd {
            CmdType::Disconnect => r matches Ok(op) && op is Disconnect,
            CmdType::Flush => r matches Ok(op) && op is Flush,
            CmdType::Read => if !spec_in_range(req.offset, req.length, export@.size_bytes) {
                r == Err::<StorageOp, u32>(NBD_EINVAL)
            } else if req.length + 8 > NBD_MAX_PAYLOAD {
                r == Err::<StorageOp, u32>(NBD_EOVERFLOW)
            } else {
                r matches Ok(op) && op matches StorageOp::Read { offset, length, df } && offset
                    == req.offset && length == req.length && df == req.flags.df
            },
            CmdType::Write => if !spec_in_range(req.offset, req.length, export@.size_bytes) {
                r == Err::<StorageOp, u32>(NBD_EINVAL)
            } else if export@.flags.read_only {
                r == Err::<StorageOp, u32>(NBD_EPERM)
            } else {
                r matches Ok(op) && op matches StorageOp::Write { offset, data, fua } && offset
                    == req.offset && data@ == req.data@ && fua == req.flags.fua
            },
            CmdType::Trim => if !spec_in_range(req.offset, req.length, export@.size_bytes) {
                r == Err::<StorageOp, u32>(NBD_EINVAL)
            } else if export@.flags.read_only {
                r == Err::<StorageOp, u32>(NBD_EPERM)
            } else {
                r matches Ok(op) && op matches StorageOp::Trim { offset, length } && offset
                    == req.offset && length == req.length
            },
            CmdType::WriteZeroes => if !spec_in_range(req.offset, req.length, export@.size_bytes) {
                r == Err::<StorageOp, u32>(NBD_EINVAL)
            } else if export@.flags.read_only {
                r == Err::<StorageOp, u32>(NBD_EPERM)
            } else {
                r matches Ok(op) && op matches StorageOp::WriteZeroes {
                    offset,
                    length,
                    fua,
                    no_hole,
                    fast_zero,
                } && offset == req.offset && length == req.length && fua == req.flags.fua
                    && no_hole == req.flags.no_hole && fast_zero == req.flags.fast_zero
            },
            CmdType::BlockStatus => if !spec_in_range(req.offset, req.length, export@.size_bytes) {
                r == Err::<StorageOp, u32>(NBD_EINVAL)
            } else {
                r matches Ok(op) && op matches StorageOp::BlockStatus { offset, length, req_one }
                    && offset == req.offset && length == req.length && req_one
                    == req.flags.req_one
            },
            CmdType::Unknown(_) => r == Err::<StorageOp, u32>(NBD_EINVAL),
        },
{
    let in_range = req.offset <= export.size_bytes && req.length as u64 <= export.size_bytes
        - req.offset;
    match req.cmd {
        CmdType::Disconnect => Ok(StorageOp::Disconnect),
        CmdType::Flush => Ok(StorageOp::Flush),
        CmdType::Read => {
            if !in_range {
                Err(NBD_EINVAL)
            } else if req.length > NBD_MAX_PAYLOAD - 8 {
                Err(NBD_EOVERFLOW)
            } else {
                Ok(StorageOp::Read { offset: req.offset, length: req.length, df: req.flags.df })
            }
        },
        CmdType::Write => {
            if !in_range {
                Err(NBD_EINVAL)
            } else if export.flags.read_only {
                Err(NBD_EPERM)
            } else {
                Ok(
                    StorageOp::Write {
                        offset: req.offset,
                        data: clone_bytes(&req.data),
                        fua: req.flags.fua,
                    },
                )
            }
        },
        CmdType::Trim => {
            if !in_range {
                Err(NBD_EINVAL)
            } else if export.flags.read_only {
                Err(NBD_EPERM)
            } else {
                Ok(StorageOp::Trim { offset: req.offset, length: req.length })
            }
        },
        CmdType::WriteZeroes => {
            if !in_range {
                Err(NBD_EINVAL)
            } else if export.flags.read_only {
                Err(NBD_EPERM)
            } else {
                Ok(
                    StorageOp::WriteZeroes {
                        offset: req.offset,
                        length: req.length,
                        fua: req.flags.fua,
                        no_hole: req.flags.no_hole,
                        fast_zero: req.flags.fast_zero,
                    },
                )
            }
        },
        CmdType::BlockStatus => {
            if !in_range {
                Err(NBD_EINVAL)
            } else {
                Ok(
                    StorageOp::BlockStatus {
                        offset: req.offset,
                        length: req.length,
                        req_one: req.flags.req_one,
                    },
                )
            }
        },
        CmdType::Unknown(_) => Err(NBD_EINVAL),
    }
}

/// Builds the reply owed for one request from the storage outcome.
///
/// With structured replies disabled every outcome is one simple reply
/// carrying the request's handle. With them enabled, reads and
/// block-status queries are answered with a chunk sequence that carries
/// the handle on every chunk and the DONE flag on exactly the last;
/// every other command still gets a simple reply.
#[verifier::loop_isolation(false)]
pub fn build_reply(
    structured: bool,
    context_id: u32,
    req: &TransmissionRequest,
    result: &StorageResult,
) -> (r: EngineReply)
    requires
        req.wf(),
        (result matches StorageResult::Data(d) ==> req.cmd == CmdType::Read && d@.len()
            == req.length && 8 + d@.len() <= NBD_MAX_PAYLOAD),
        (result matches StorageResult::Status(ds) ==> req.cmd == CmdType::BlockStatus && 1
            <= ds@.len() && 4 + 8 * ds@.len() <= NBD_MAX_PAYLOAD),
        (result is Done ==> req.cmd != CmdType::Read && req.cmd != CmdType::BlockStatus),
    ensures
        (r matches EngineReply::Chunks(v) ==> structured && spec_chunks_wf(v@, req.handle)
            && spec_chunks_valid(v@)),
        (r matches EngineReply::Simple(s) ==> s.handle == req.handle),
        match result {
            StorageResult::Failed(e) => if structured && (req.cmd == CmdType::Read || req.cmd
                == CmdType::BlockStatus) {
                r matches EngineReply::Chunks(v) && v@.len() == 1 && (v@[0]@.payload
                    matches ChunkPayloadView::ErrorDetail { error, message } && error == e
                    && message.len() == 0)
            } else {
                r matches EngineReply::Simple(s) && s.error == e && s.data@.len() == 0
            },
            StorageResult::Data(d) => if structured {
                r matches EngineReply::Chunks(v) && v@.len() == 1 && (v@[0]@.payload
                    matches ChunkPayloadView::OffsetData { offset, data } && offset == req.offset
                    && data == d@)
            } else {
                r matches EngineReply::Simple(s) && s.error == 0 && s.data@ == d@
            },
            StorageResult::Done => r matches EngineReply::Simple(s) && s.error == 0 && s.data@.len()
                == 0,
            StorageResult::Status(ds) => {
                let used = if req.flags.req_one {
                    ds@.take(1)
                } else {
                    ds@
                };
                if structured {
                    r matches EngineReply::Chunks(v) && v@.len() == used.len() && (forall|k: int|
                        0 <= k < used.len() ==> ((#[trigger] v@[k])@.payload
                            matches ChunkPayloadView::BlockStatus { context_id: c, descriptors }
                            && c == context_id && descriptors == seq![used[k]]))
                } else {
                    r matches EngineReply::Simple(s) && s.error == 0 && s.data@.len() == 0
                }
            },
        },
{
    let take_chunks = structured && (matches!(req.cmd, CmdType::Read) || matches!(
        req.cmd,
        CmdType::BlockStatus,
    ));
    match result {
        StorageResult::Failed(e) => {
            if take_chunks {
                let mut v: Vec<StructuredReplyChunk> = Vec::new();
                v.push(
                    StructuredReplyChunk {
                        done: true,
                        handle: req.handle,
                        payload: ChunkPayload::ErrorDetail { error: *e, message: Vec::new() },
                    },
                );
                EngineReply::Chunks(v)
            } else {
                EngineReply::Simple(
                    SimpleReply { error: *e, handle: req.handle, data: Vec::new() },
                )
            }
        },
        StorageResult::Data(d) => {
            if structured {
                let mut v: Vec<StructuredReplyChunk> = Vec::new();
                v.push(
                    StructuredReplyChunk {
                        done: true,
                        handle: req.handle,
                        payload: ChunkPayload::OffsetData {
                            offset: req.offset,
                            data: clone_bytes(d),
                        },
                    },
                );
                EngineReply::Chunks(v)
            } else {
                EngineReply::Simple(
                    SimpleReply { error: 0, handle: req.handle, data: clone_bytes(d) },
                )
            }
        },
        StorageResult::Done => {
            EngineReply::Simple(SimpleReply { error: 0, handle: req.handle, data: Vec::new() })
        },
        StorageResult::Status(ds) => {
            if structured {
                let n: usize = if req.flags.req_one && ds.len() > 1 {
                    1
                } else {
                    ds.len()
                };
                let ghost used = if req.flags.req_one {
                    ds@.take(1)
                } else {
                    ds@
                };
                assert(used.len() == n);
                let mut v: Vec<StructuredReplyChunk> = Vec::new();
                let mut k: usize = 0;
                while k < n
                    invariant
                        k <= n,
                        v@.len() == k,
                        forall|j: int|
                            0 <= j < k ==> (#[trigger] v@[j])@.handle == req.handle && (v@[j]@.done
                                <==> j == n - 1) && (v@[j]@.payload
                                matches ChunkPayloadView::BlockStatus {
                                context_id: c,
                                descriptors,
                            } && c == context_id && descriptors == seq![used[j]])
                                && spec_chunk_payload_valid(v@[j]@.payload),
                    decreases n - k,
                {
                    let mut one: Vec<StatusDescriptor> = Vec::new();
                    one.push(ds[k]);
                    assert(one@ =~= seq![used[k as int]]);
                    v.push(
                        StructuredReplyChunk {
                            done: k == n - 1,
                            handle: req.handle,
                            payload: ChunkPayload::BlockStatus {
                                context_id,
                                descriptors: one,
                            },
                        },
                    );
                    k = k + 1;
                }
                EngineReply::Chunks(v)
            } else {
                EngineReply::Simple(SimpleReply { error: 0, handle: req.handle, data: Vec::new() })
            }
        },
    }
}

/// Whether a storage outcome has the shape the request calls for:
/// data exactly for a read, sized by it and framable; status runs
/// exactly for a block-status query, at least one and framable; a bare
/// completion only for the write family; a failure always. This is
/// what [`build_reply`] requires of its outcome.
pub fn result_matches_request(req: &TransmissionRequest, result: &StorageResult) -> (r: bool)
    ensures
        r == match result {
            StorageResult::Data(d) => req.cmd == CmdType::Read && d@.len() == req.length && 8
                + d@.len() <= NBD_MAX_PAYLOAD,
            StorageResult::Status(ds) => req.cmd == CmdType::BlockStatus && 1 <= ds@.len() && 4 + 8
                * ds@.len() <= NBD_MAX_PAYLOAD,
            StorageResult::Done => req.cmd != CmdType::Read && req.cmd != CmdType::BlockStatus,
            StorageResult::Failed(_) => true,
        },
{
    match result {
        StorageResult::Data(d) => matches!(req.cmd, CmdType::Read) && d.len() == req.length
            as usize && d.len() <= (NBD_MAX_PAYLOAD - 8) as usize,
        StorageResult::Status(ds) => matches!(req.cmd, CmdType::BlockStatus) && ds.len() >= 1
            && ds.len() <= ((NBD_MAX_PAYLOAD - 4) / 8) as usize,
        StorageResult::Done => !matches!(req.cmd, CmdType::Read) && !matches!(
            req.cmd,
            CmdType::BlockStatus,
        ),
        StorageResult::Failed(_) => true,
    }
}

/// Bytes of a chunk sequence, each chunk in order.
pub open spec fn spec_encode_chunk_seq(v: Seq<StructuredReplyChunk>) -> Seq<u8>
    decreases v.len(),
{
    if v.len() == 0 {
        Seq::empty()
    } else {
        spec_encode_chunk(v[0]@) + spec_encode_chunk_seq(v.skip(1))
    }
}

/// Appending one chunk appends its bytes.
pub proof fn lemma_encode_chunk_seq_push(v: Seq<StructuredReplyChunk>, c: StructuredReplyChunk)
    ensures
        spec_encode_chunk_seq(v.push(c)) == spec_encode_chunk_seq(v) + spec_encode_chunk(c@),
    decreases v.len(),
{
    if v.len() == 0 {
        let s = v.push(c);
        assert(s[0] == c);
        assert(s.skip(1) =~= Seq::<StructuredReplyChunk>::empty());
        assert(spec_encode_chunk_seq(s.skip(1)) =~= Seq::<u8>::empty());
        assert(spec_encode_chunk_seq(s) =~= spec_encode_chunk(c@));
        assert(spec_encode_chunk_seq(v) =~= Seq::<u8>::empty());
        assert(spec_encode_chunk_seq(v) + spec_encode_chunk(c@) =~= spec_encode_chunk(c@));
    } else {
        assert(v.push(c).skip(1) =~= v.skip(1).push(c));
        lemma_encode_chunk_seq_push(v.skip(1), c);
        assert(v.push(c)[0] == v[0]);
        assert(spec_encode_chunk_seq(v.push(c)) =~= spec_encode_chunk_seq(v) + spec_encode_chunk(
            c@,
        ));
    }
}

/// Encodes one engine reply into the bytes the driver writes: a simple
/// reply frame, or every chunk in order.
#[verifier::loop_isolation(false)]
pub fn encode_reply(r: &EngineReply) -> (out: Vec<u8>)
    requires
        (r matches EngineReply::Chunks(v) ==> spec_chunks_valid(v@)),
    ensures
        match r {
            EngineReply::Simple(s) => out@ == spec_encode_simple_reply(s.error, s.handle, s.data@),
            EngineReply::Chunks(v) => out@ == spec_encode_chunk_seq(v@),
        },
{
    match r {
        EngineReply::Simple(s) => s.encode(),
        EngineReply::Chunks(v) => {
            let mut out: Vec<u8> = Vec::new();
            let n: usize = v.len();
            let mut i: usize = 0;
            proof {
                assert(v@.take(0) =~= Seq::<StructuredReplyChunk>::empty());
                assert(spec_encode_chunk_seq(v@.take(0)) =~= Seq::<u8>::empty());
            }
            while i < n
                invariant
                    i <= n,
                    out@ == spec_encode_chunk_seq(v@.take(i as int)),
                decreases n - i,
            {
                let bytes = v[i].encode();
                push_bytes(&mut out, &bytes);
                proof {
                    lemma_encode_chunk_seq_push(v@.take(i as int), v@[i as int]);
                    assert(v@.take(i + 1) =~= v@.take(i as int).push(v@[i as int]));
                }
                i = i + 1;
            }
            assert(v@.take(n as int) =~= v@);
            out
        },
    }
}

} // verus!
