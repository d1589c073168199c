//! Wire codec for the transmission phase: command requests, simple
//! replies, and structured reply chunks.
//!
//! As in the haggling codec, every decode is total, every length field is
//! bounded before a buffer is sized from it, and unknown command types
//! decode to an explicit `Unknown` variant so that the engine, not the
//! codec, decides how to react.

use vstd::prelude::*;
use crate::codec::DecodeError;
use crate::consts::{
    NBD_CMD_BLOCK_STATUS, NBD_CMD_DISC, NBD_CMD_FLUSH, NBD_CMD_READ, NBD_CMD_TRIM, NBD_CMD_WRITE,
    NBD_CMD_WRITE_ZEROES, NBD_MAX_PAYLOAD, NBD_REPLY_TYPE_BLOCK_STATUS, NBD_REPLY_TYPE_ERROR,
    NBD_REPLY_TYPE_NONE, NBD_REPLY_TYPE_OFFSET_DATA, NBD_REPLY_TYPE_OFFSET_HOLE,
    NBD_REQUEST_MAGIC, NBD_SIMPLE_REPLY_MAGIC, NBD_STRUCTURED_REPLY_MAGIC,
};
use crate::flags::{spec_cmd_flag_bits, spec_cmd_flags_of_bits, lemma_cmd_flags_round_trip, CmdFlags};
use crate::wire::{
    get_u16_be, get_u32_be, get_u64_be, lemma_u16_be_round_trip, lemma_u32_be_round_trip,
    lemma_u64_be_round_trip, push_bytes, push_u16_be, push_u32_be, push_u64_be, spec_u16_be,
    spec_u16_from_be, spec_u32_be, spec_u32_from_be, spec_u64_be, spec_u64_from_be,
};
use crate::codec::copy_range;

verus! {

/// The command types of the transmission phase. Types outside the closed
/// set decode to `Unknown`; the engine answers them with an error reply.
#[derive(Clone, Copy, Debug, PartialEq, Eq, Structural)]
pub enum CmdType {
    Read,
    Write,
    Disconnect,
    Flush,
    Trim,
    WriteZeroes,
    BlockStatus,
    Unknown(u16),
}

/// One decoded transmission request. `handle` is the client's opaque
/// correlation token, echoed verbatim in every reply. `data` is the
/// inline payload, present exactly for writes.
#[derive(Clone, Debug)]
pub struct TransmissionRequest {
    pub flags: CmdFlags,
    pub cmd: CmdType,
    pub handle: u64,
    pub offset: u64,
    pub length: u32,
    pub data: Vec<u8>,
}

/// A simple (non-structured) transmission reply: one numeric error code
/// (zero on success) and, for a successful read, the data.
#[derive(Clone, Debug)]
pub struct SimpleReply {
    pub error: u32,
    pub handle: u64,
    pub data: Vec<u8>,
}

/// One run of blocks in a block-status reply: its length in bytes and
/// its status bits (bit 0: hole, bit 1: reads as zero).
#[derive(Clone, Copy, Debug, PartialEq, Eq, Structural)]
pub struct StatusDescriptor {
    pub length: u32,
    pub status: u32,
}

/// The typed payload of a structured reply chunk.
#[derive(Clone, Debug)]
pub enum ChunkPayload {
    /// No content: a bare terminator.
    NoPayload,
    /// Data read at an absolute offset.
    OffsetData { offset: u64, data: Vec<u8> },
    /// A hole (reads as zeroes) at an absolute offset.
    OffsetHole { offset: u64, hole_size: u32 },
    /// Allocation status of consecutive runs within one meta context.
    BlockStatus { context_id: u32, descriptors: Vec<StatusDescriptor> },
    /// A failed request: numeric error code and a human-readable message.
    ErrorDetail { error: u32, message: Vec<u8> },
}

/// One structured reply chunk. Every chunk of a reply carries the
/// request's handle; the terminal chunk carries `done`.
#[derive(Clone, Debug)]
pub struct StructuredReplyChunk {
    pub done: bool,
    pub handle: u64,
    pub payload: ChunkPayload,
}

/// Whether `n` is one of the command types of the closed enumeration.
pub open spec fn spec_cmd_known(n: u16) -> bool {
    n == NBD_CMD_READ || n == NBD_CMD_WRITE || n == NBD_CMD_DISC || n == NBD_CMD_FLUSH || n
        == NBD_CMD_TRIM || n == NBD_CMD_WRITE_ZEROES || n == NBD_CMD_BLOCK_STATUS
}

/// The command type denoted by the wire value `n`.
pub open spec fn spec_cmd_of(n: u16) -> CmdType {
    if n == NBD_CMD_READ {
        CmdType::Read
    } else if n == NBD_CMD_WRITE {
        CmdType::Write
    } else if n == NBD_CMD_DISC {
        CmdType::Disconnect
    } else if n == NBD_CMD_FLUSH {
        CmdType::Flush
    } else if n == NBD_CMD_TRIM {
        CmdType::Trim
    } else if n == NBD_CMD_WRITE_ZEROES {
        CmdType::WriteZeroes
    } else if n == NBD_CMD_BLOCK_STATUS {
        CmdType::BlockStatus
    } else {
        CmdType::Unknown(n)
    }
}

/// The wire value of a command type.
pub open spec fn spec_cmd_number(c: CmdType) -> u16 {
    match c {
        CmdType::Read => NBD_CMD_READ,
        CmdType::Write => NBD_CMD_WRITE,
        CmdType::Disconnect => NBD_CMD_DISC,
        CmdType::Flush => NBD_CMD_FLUSH,
        CmdType::Trim => NBD_CMD_TRIM,
        CmdType::WriteZeroes => NBD_CMD_WRITE_ZEROES,
        CmdType::BlockStatus => NBD_CMD_BLOCK_STATUS,
        CmdType::Unknown(n) => n,
    }
}

/// An `Unknown` command never shadows a member of the closed set.
pub open spec fn spec_cmd_valid(c: CmdType) -> bool {
    match c {
        CmdType::Unknown(n) => !spec_cmd_known(n),
        _ => true,
    }
}

/// Wire value and command type convert back and forth exactly.
pub proof fn lemma_cmd_round_trip(c: CmdType)
    requires
        spec_cmd_valid(c),
    ensures
        spec_cmd_of(spec_cmd_number(c)) == c,
{
}

impl CmdType {
    /// The wire value of this command type.
    pub fn number(&self) -> (r: u16)
        ensures
            r == spec_cmd_number(*self),
    {
        match self {
            CmdType::Read => NBD_CMD_READ,
            CmdType::Write => NBD_CMD_WRITE,
            CmdType::Disconnect => NBD_CMD_DISC,
            CmdType::Flush => NBD_CMD_FLUSH,
            CmdType::Trim => NBD_CMD_TRIM,
            CmdType::WriteZeroes => NBD_CMD_WRITE_ZEROES,
            CmdType::BlockStatus => NBD_CMD_BLOCK_STATUS,
            CmdType::Unknown(n) => *n,
        }
    }

    /// The command type denoted by the wire value `n`.
    pub fn from_number(n: u16) -> (r: CmdType)
        ensures
            r == spec_cmd_of(n),
            spec_cmd_valid(r),
    {
        if n == NBD_CMD_READ {
            CmdType::Read
        } else if n == NBD_CMD_WRITE {
            CmdType::Write
        } else if n == NBD_CMD_DISC {
            CmdType::Disconnect
        } else if n == NBD_CMD_FLUSH {
            CmdType::Flush
        } else if n == NBD_CMD_TRIM {
            CmdType::Trim
        } else if n == NBD_CMD_WRITE_ZEROES {
            CmdType::WriteZeroes
        } else if n == NBD_CMD_BLOCK_STATUS {
            CmdType::BlockStatus
        } else {
            CmdType::Unknown(n)
        }
    }
}

// ---------------------------------------------------------------------
// Transmission request.
// ---------------------------------------------------------------------

/// The inline payload length implied by a decoded header: only a write
/// carries data.
pub open spec fn spec_inline_len(cmd: CmdType, length: u32) -> int {
    if cmd == CmdType::Write {
        length as int
    } else {
        0
    }
}

/// Bytes of a transmission request.
pub open spec fn spec_encode_request(
    flags: CmdFlags,
    cmd: CmdType,
    handle: u64,
    offset: u64,
    length: u32,
    data: Seq<u8>,
) -> Seq<u8> {
    spec_u32_be(NBD_REQUEST_MAGIC) + spec_u16_be(spec_cmd_flag_bits(flags)) + spec_u16_be(
        spec_cmd_number(cmd),
    ) + spec_u64_be(handle) + spec_u64_be(offset) + spec_u32_be(length) + data
}

/// Decodes a transmission request: a 28-byte header, then inline data
/// exactly for a write.
pub open spec fn spec_decode_request(b: Seq<u8>) -> Result<(TransmissionRequestView, int), DecodeError> {
    if b.len() < 28 {
        Err(DecodeError::Incomplete)
    } else if spec_u32_from_be(b) != NBD_REQUEST_MAGIC {
        Err(DecodeError::BadMagic)
    } else {
        let length = spec_u32_from_be(b.skip(24));
        if length > NBD_MAX_PAYLOAD {
            Err(DecodeError::TooLarge)
        } else {
            let cmd = spec_cmd_of(spec_u16_from_be(b.skip(6)));
            let dlen = spec_inline_len(cmd, length);
            if b.len() < 28 + dlen {
                Err(DecodeError::Incomplete)
            } else {
                Ok(
                    (
                        TransmissionRequestView {
                            flags: spec_cmd_flags_of_bits(spec_u16_from_be(b.skip(4))),
                            cmd,
                            handle: spec_u64_from_be(b.skip(8)),
                            offset: spec_u64_from_be(b.skip(16)),
                            length,
                            data: b.subrange(28, 28 + dlen),
                        },
                        28 + dlen,
                    ),
                )
            }
        }
    }
}

/// The mathematical shape of a transmission request: the same fields,
/// with the payload as a byte sequence.
pub struct TransmissionRequestView {
    pub flags: CmdFlags,
    pub cmd: CmdType,
    pub handle: u64,
    pub offset: u64,
    pub length: u32,
    pub data: Seq<u8>,
}

impl View for TransmissionRequest {
    type V = TransmissionRequestView;

    open spec fn view(&self) -> TransmissionRequestView {
        TransmissionRequestView {
            flags: self.flags,
            cmd: self.cmd,
            handle: self.handle,
            offset: self.offset,
            length: self.length,
            data: self.data@,
        }
    }
}

impl TransmissionRequest {
    /// A request is well formed when its command does not shadow the
    /// closed set, its length respects the bound, and inline data is
    /// present exactly for a write, sized by the length field.
    pub open spec fn wf(&self) -> bool {
        &&& spec_cmd_valid(self.cmd)
        &&& self.length <= NBD_MAX_PAYLOAD
        &&& self.data@.len() == spec_inline_len(self.cmd, self.length)
    }

    /// Encodes this transmission request.
    pub fn encode(&self) -> (r: Vec<u8>)
        ensures
            r@ == spec_encode_request(
                self.flags,
                self.cmd,
                self.handle,
                self.offset,
                self.length,
                self.data@,
            ),
    {
        let mut r: Vec<u8> = Vec::new();
        push_u32_be(&mut r, NBD_REQUEST_MAGIC);
        push_u16_be(&mut r, self.flags.to_bits());
        push_u16_be(&mut r, self.cmd.number());
        push_u64_be(&mut r, self.handle);
        push_u64_be(&mut r, self.offset);
        push_u32_be(&mut r, self.length);
        push_bytes(&mut r, &self.data);
        r
    }

    /// Decodes one transmission request from the front of `buf`,
    /// returning it with the number of bytes consumed.
    pub fn decode(buf: &Vec<u8>) -> (r: Result<(TransmissionRequest, usize), DecodeError>)
        ensures
            match r {
                Ok((req, n)) => spec_decode_request(buf@) == Ok::<_, DecodeError>(
                    (req@, n as int),
                ) && req.wf(),
                Err(e) => spec_decode_request(buf@) == Err::<(TransmissionRequestView, int), _>(e),
            },
    {
        if buf.len() < 28 {
            return Err(DecodeError::Incomplete);
        }
        assert(buf@.skip(0) == buf@);
        if get_u32_be(buf, 0) != NBD_REQUEST_MAGIC {
            return Err(DecodeError::BadMagic);
        }
        let length = get_u32_be(buf, 24);
        if length > NBD_MAX_PAYLOAD {
            return Err(DecodeError::TooLarge);
        }
        let cmd = CmdType::from_number(get_u16_be(buf, 6));
        let dlen: usize = if matches!(cmd, CmdType::Write) {
            length as usize
        } else {
            0
        };
        if buf.len() < 28 + dlen {
            return Err(DecodeError::Incomplete);
        }
        let flags = CmdFlags::from_bits(get_u16_be(buf, 4));
        let handle = get_u64_be(buf, 8);
        let offset = get_u64_be(buf, 16);
        let data = copy_range(buf, 28, dlen);
        Ok((TransmissionRequest { flags, cmd, handle, offset, length, data }, 28 + dlen))
    }
}

/// A transmission request decodes back to the fields it was encoded
/// from.
pub proof fn lemma_request_round_trip(
    flags: CmdFlags,
    cmd: CmdType,
    handle: u64,
    offset: u64,
    length: u32,
    data: Seq<u8>,
)
    requires
        spec_cmd_valid(cmd),
        length <= NBD_MAX_PAYLOAD,
        data.len() == spec_inline_len(cmd, length),
    ensures
        spec_decode_request(spec_encode_request(flags, cmd, handle, offset, length, data)) == Ok::<
            _,
            DecodeError,
        >(
            (
                TransmissionRequestView { flags, cmd, handle, offset, length, data },
                28 + data.len() as int,
            ),
        ),
{
    let b = spec_encode_request(flags, cmd, handle, offset, length, data);
    assert(b.len() == 28 + data.len());
    lemma_u32_be_round_trip(NBD_REQUEST_MAGIC);
    assert(spec_u32_from_be(b) == NBD_REQUEST_MAGIC);
    let fb = spec_cmd_flag_bits(flags);
    let cn = spec_cmd_number(cmd);
    assert(b.skip(4) =~= spec_u16_be(fb) + (spec_u16_be(cn) + (spec_u64_be(handle) + (spec_u64_be(
        offset,
    ) + (spec_u32_be(length) + data)))));
    lemma_u16_be_round_trip(fb);
    assert(spec_u16_from_be(b.skip(4)) == fb);
    lemma_cmd_flags_round_trip(flags);
    assert(b.skip(6) =~= spec_u16_be(cn) + (spec_u64_be(handle) + (spec_u64_be(offset) + (
    spec_u32_be(length) + data))));
    lemma_u16_be_round_trip(cn);
    assert(spec_u16_from_be(b.skip(6)) == cn);
    lemma_cmd_round_trip(cmd);
    assert(b.skip(8) =~= spec_u64_be(handle) + (spec_u64_be(offset) + (spec_u32_be(length)
        + data)));
    lemma_u64_be_round_trip(handle);
    assert(spec_u64_from_be(b.skip(8)) == handle);
    assert(b.skip(16) =~= spec_u64_be(offset) + (spec_u32_be(length) + data));
    lemma_u64_be_round_trip(offset);
    assert(spec_u64_from_be(b.skip(16)) == offset);
    assert(b.skip(24) =~= spec_u32_be(length) + data);
    lemma_u32_be_round_trip(length);
    assert(spec_u32_from_be(b.skip(24)) == length);
    assert(b.subrange(28, 28 + data.len() as int) =~= data);
}

// ---------------------------------------------------------------------
// Simple reply.
// ---------------------------------------------------------------------

/// Bytes of a simple reply.
pub open spec fn spec_encode_simple_reply(error: u32, handle: u64, data: Seq<u8>) -> Seq<u8> {
    spec_u32_be(NBD_SIMPLE_REPLY_MAGIC) + spec_u32_be(error) + spec_u64_be(handle) + data
}

/// Decodes a simple reply. The data length is not framed: it is the
/// matching request's, so the caller supplies it.
pub open spec fn spec_decode_simple_reply(b: Seq<u8>, dlen: int) -> Result<
    (u32, u64, Seq<u8>, int),
    DecodeError,
> {
    if b.len() < 16 + dlen {
        Err(DecodeError::Incomplete)
    } else if spec_u32_from_be(b) != NBD_SIMPLE_REPLY_MAGIC {
        Err(DecodeError::BadMagic)
    } else {
        Ok((spec_u32_from_be(b.skip(4)), spec_u64_from_be(b.skip(8)), b.subrange(16, 16 + dlen), 16 + dlen))
    }
}

impl SimpleReply {
    /// Encodes this simple reply.
    pub fn encode(&self) -> (r: Vec<u8>)
        ensures
            r@ == spec_encode_simple_reply(self.error, self.handle, self.data@),
    {
        let mut r: Vec<u8> = Vec::new();
        push_u32_be(&mut r, NBD_SIMPLE_REPLY_MAGIC);
        push_u32_be(&mut r, self.error);
        push_u64_be(&mut r, self.handle);
        push_bytes(&mut r, &self.data);
        r
    }

    /// Decodes one simple reply whose data part is `dlen` bytes long.
    pub fn decode(buf: &Vec<u8>, dlen: usize) -> (r: Result<(SimpleReply, usize), DecodeError>)
        ensures
            match r {
                Ok((rep, n)) => spec_decode_simple_reply(buf@, dlen as int) == Ok::<_, DecodeError>(
                    (rep.error, rep.handle, rep.data@, n as int),
                ),
                Err(e) => spec_decode_simple_reply(buf@, dlen as int) == Err::<
                    (u32, u64, Seq<u8>, int),
                    _,
                >(e),
            },
    {
        if buf.len() < 16 || buf.len() - 16 < dlen {
            return Err(DecodeError::Incomplete);
        }
        assert(buf@.skip(0) == buf@);
        if get_u32_be(buf, 0) != NBD_SIMPLE_REPLY_MAGIC {
            return Err(DecodeError::BadMagic);
        }
        let error = get_u32_be(buf, 4);
        let handle = get_u64_be(buf, 8);
        let data = copy_range(buf, 16, dlen);
        Ok((SimpleReply { error, handle, data }, 16 + dlen))
    }
}

/// A simple reply decodes back to the fields it was encoded from.
pub proof fn lemma_simple_reply_round_trip(error: u32, handle: u64, data: Seq<u8>)
    ensures
        spec_decode_simple_reply(spec_encode_simple_reply(error, handle, data), data.len() as int)
            == Ok::<_, DecodeError>((error, handle, data, 16 + data.len() as int)),
{
    let b = spec_encode_simple_reply(error, handle, data);
    assert(b.len() == 16 + data.len());
    lemma_u32_be_round_trip(NBD_SIMPLE_REPLY_MAGIC);
    assert(spec_u32_from_be(b) == NBD_SIMPLE_REPLY_MAGIC);
    assert(b.skip(4) =~= spec_u32_be(error) + (spec_u64_be(handle) + data));
    lemma_u32_be_round_trip(error);
    assert(spec_u32_from_be(b.skip(4)) == error);
    assert(b.skip(8) =~= spec_u64_be(handle) + data);
    lemma_u64_be_round_trip(handle);
    assert(spec_u64_from_be(b.skip(8)) == handle);
    assert(b.subrange(16, 16 + data.len() as int) =~= data);
}

// ---------------------------------------------------------------------
// Status descriptors: 8 wire bytes per run.
// ---------------------------------------------------------------------

/// Bytes of one status descriptor.
pub open spec fn spec_descriptor_bytes(d: StatusDescriptor) -> Seq<u8> {
    spec_u32_be(d.length) + spec_u32_be(d.status)
}

/// Bytes of a run of status descriptors, in order.
pub open spec fn spec_descriptors_bytes(ds: Seq<StatusDescriptor>) -> Seq<u8>
    decreases ds.len(),
{
    if ds.len() == 0 {
        Seq::empty()
    } else {
        spec_descriptor_bytes(ds[0]) + spec_descriptors_bytes(ds.skip(1))
    }
}

/// Appending one descriptor appends its eight bytes.
pub proof fn lemma_descriptors_bytes_push(ds: Seq<StatusDescriptor>, d: StatusDescriptor)
    ensures
        spec_descriptors_bytes(ds.push(d)) == spec_descriptors_bytes(ds) + spec_descriptor_bytes(
            d,
        ),
    decreases ds.len(),
{
    if ds.len() == 0 {
        let s = ds.push(d);
        assert(s[0] == d);
        assert(s.skip(1) =~= Seq::<StatusDescriptor>::empty());
        assert(spec_descriptors_bytes(s.skip(1)) =~= Seq::<u8>::empty());
        assert(spec_descriptors_bytes(s) =~= spec_descriptor_bytes(d));
        assert(spec_descriptors_bytes(ds) =~= Seq::<u8>::empty());
        assert(spec_descriptors_bytes(ds) + spec_descriptor_bytes(d) =~= spec_descriptor_bytes(d));
    } else {
        assert(ds.push(d).skip(1) =~= ds.skip(1).push(d));
        lemma_descriptors_bytes_push(ds.skip(1), d);
        assert(spec_descriptors_bytes(ds.push(d)) =~= spec_descriptors_bytes(ds)
            + spec_descriptor_bytes(d));
    }
}

/// The byte run of `n` descriptors is `8 * n` bytes long.
pub proof fn lemma_descriptors_bytes_len(ds: Seq<StatusDescriptor>)
    ensures
        spec_descriptors_bytes(ds).len() == 8 * ds.len(),
    decreases ds.len(),
{
    if ds.len() > 0 {
        lemma_descriptors_bytes_len(ds.skip(1));
    }
}

/// Descriptors read back from the front of a byte run, eight bytes at a
/// time; a trailing fragment shorter than a descriptor is dropped.
pub open spec fn spec_decode_descriptors(b: Seq<u8>) -> Seq<StatusDescriptor>
    decreases b.len(),
{
    if b.len() < 8 {
        Seq::empty()
    } else {
        seq![
            StatusDescriptor { length: spec_u32_from_be(b), status: spec_u32_from_be(b.skip(4)) },
        ] + spec_decode_descriptors(b.skip(8))
    }
}

/// A descriptor run decodes back to the descriptors it was encoded from.
pub proof fn lemma_descriptors_round_trip(ds: Seq<StatusDescriptor>)
    ensures
        spec_decode_descriptors(spec_descriptors_bytes(ds)) == ds,
    decreases ds.len(),
{
    if ds.len() == 0 {
        assert(spec_decode_descriptors(spec_descriptors_bytes(ds)) =~= ds);
    } else {
        let b = spec_descriptors_bytes(ds);
        let rest = spec_descriptors_bytes(ds.skip(1));
        lemma_descriptors_bytes_len(ds.skip(1));
        assert(b.len() == 8 + rest.len());
        lemma_u32_be_round_trip(ds[0].length);
        assert(spec_u32_from_be(b) == ds[0].length);
        assert(b.skip(4) =~= spec_u32_be(ds[0].status) + rest);
        lemma_u32_be_round_trip(ds[0].status);
        assert(spec_u32_from_be(b.skip(4)) == ds[0].status);
        assert(b.skip(8) =~= rest);
        lemma_descriptors_round_trip(ds.skip(1));
        assert(spec_decode_descriptors(b) =~= ds);
    }
}

/// Appends the byte run of `ds`.
pub fn encode_descriptors(out: &mut Vec<u8>, ds: &Vec<StatusDescriptor>)
    ensures
        final(out)@ == old(out)@ + spec_descriptors_bytes(ds@),
{
    let mut i: usize = 0;
    let ghost head = out@;
    while i < ds.len()
        invariant
            i <= ds@.len(),
            out@ == head + spec_descriptors_bytes(ds@.take(i as int)),
        decreases ds@.len() - i,
    {
        push_u32_be(out, ds[i].length);
        push_u32_be(out, ds[i].status);
        proof {
            lemma_descriptors_bytes_push(ds@.take(i as int), ds@[i as int]);
            assert(ds@.take(i + 1) =~= ds@.take(i as int).push(ds@[i as int]));
            assert(out@ =~= head + spec_descriptors_bytes(ds@.take(i + 1)));
        }
        i = i + 1;
    }
    assert(ds@.take(ds@.len() as int) =~= ds@);
}

/// Reads descriptors from `buf` from `start` to the end.
pub fn decode_descriptors(buf: &Vec<u8>, start: usize) -> (r: Vec<StatusDescriptor>)
    requires
        start <= buf@.len(),
        (buf@.len() - start) % 8 == 0,
    ensures
        r@ == spec_decode_descriptors(buf@.skip(start as int)),
{
    let n: usize = buf.len();
    let mut r: Vec<StatusDescriptor> = Vec::new();
    let mut i: usize = start;
    while i < n
        invariant
            start <= i <= n,
            n == buf@.len(),
            (n - i) % 8 == 0,
            spec_decode_descriptors(buf@.skip(start as int)) == r@ + spec_decode_descriptors(
                buf@.skip(i as int),
            ),
        decreases n - i,
    {
        assert(n - i >= 8);
        let length = get_u32_be(buf, i);
        let status = get_u32_be(buf, i + 4);
        let ghost prev = r@;
        r.push(StatusDescriptor { length, status });
        proof {
            let b = buf@.skip(i as int);
            assert(b.skip(4) =~= buf@.skip(i + 4));
            assert(b.skip(8) =~= buf@.skip(i + 8));
            assert(spec_decode_descriptors(b) == seq![
                StatusDescriptor {
                    length: spec_u32_from_be(b),
                    status: spec_u32_from_be(b.skip(4)),
                },
            ] + spec_decode_descriptors(buf@.skip(i + 8)));
            assert(r@ =~= prev + seq![StatusDescriptor { length, status }]);
            assert(r@ + spec_decode_descriptors(buf@.skip(i + 8)) =~= prev
                + spec_decode_descriptors(b));
        }
        i = i + 8;
    }
    assert(spec_decode_descriptors(buf@.skip(n as int)) =~= Seq::<StatusDescriptor>::empty());
    assert(r@ =~= r@ + spec_decode_descriptors(buf@.skip(n as int)));
    r
}

// ---------------------------------------------------------------------
// Structured reply chunks.
// ---------------------------------------------------------------------

/// The mathematical shape of a chunk payload.
pub enum ChunkPayloadView {
    NoPayload,
    OffsetData { offset: u64, data: Seq<u8> },
    OffsetHole { offset: u64, hole_size: u32 },
    BlockStatus { context_id: u32, descriptors: Seq<StatusDescriptor> },
    ErrorDetail { error: u32, message: Seq<u8> },
}

/// The mathematical shape of a structured reply chunk.
pub struct StructuredReplyChunkView {
    pub done: bool,
    pub handle: u64,
    pub payload: ChunkPayloadView,
}

impl View for ChunkPayload {
    type V = ChunkPayloadView;

    open spec fn view(&self) -> ChunkPayloadView {
        match self {
            ChunkPayload::NoPayload => ChunkPayloadView::NoPayload,
            ChunkPayload::OffsetData { offset, data } => ChunkPayloadView::OffsetData {
                offset: *offset,
                data: data@,
            },
            ChunkPayload::OffsetHole { offset, hole_size } => ChunkPayloadView::OffsetHole {
                offset: *offset,
                hole_size: *hole_size,
            },
            ChunkPayload::BlockStatus { context_id, descriptors } => ChunkPayloadView::BlockStatus {
                context_id: *context_id,
                descriptors: descriptors@,
            },
            ChunkPayload::ErrorDetail { error, message } => ChunkPayloadView::ErrorDetail {
                error: *error,
                message: message@,
            },
        }
    }
}

impl View for StructuredReplyChunk {
    type V = StructuredReplyChunkView;

    open spec fn view(&self) -> StructuredReplyChunkView {
        StructuredReplyChunkView { done: self.done, handle: self.handle, payload: self.payload@ }
    }
}

/// The wire chunk type of a payload.
pub open spec fn spec_chunk_type_number(p: ChunkPayloadView) -> u16 {
    match p {
        ChunkPayloadView::NoPayload => NBD_REPLY_TYPE_NONE,
        ChunkPayloadView::OffsetData { .. } => NBD_REPLY_TYPE_OFFSET_DATA,
        ChunkPayloadView::OffsetHole { .. } => NBD_REPLY_TYPE_OFFSET_HOLE,
        ChunkPayloadView::BlockStatus { .. } => NBD_REPLY_TYPE_BLOCK_STATUS,
        ChunkPayloadView::ErrorDetail { .. } => NBD_REPLY_TYPE_ERROR,
    }
}

/// Bytes of a chunk payload.
pub open spec fn spec_chunk_payload_bytes(p: ChunkPayloadView) -> Seq<u8> {
    match p {
        ChunkPayloadView::NoPayload => Seq::empty(),
        ChunkPayloadView::OffsetData { offset, data } => spec_u64_be(offset) + data,
        ChunkPayloadView::OffsetHole { offset, hole_size } => spec_u64_be(offset) + spec_u32_be(
            hole_size,
        ),
        ChunkPayloadView::BlockStatus { context_id, descriptors } => spec_u32_be(context_id)
            + spec_descriptors_bytes(descriptors),
        ChunkPayloadView::ErrorDetail { error, message } => spec_u32_be(error) + spec_u16_be(
            message.len() as u16,
        ) + message,
    }
}

/// Size bounds under which a payload can be framed: the length must fit
/// the bound, a block-status payload holds at least one descriptor, and
/// an error message fits its 16-bit length field.
pub open spec fn spec_chunk_payload_valid(p: ChunkPayloadView) -> bool {
    match p {
        ChunkPayloadView::NoPayload => true,
        ChunkPayloadView::OffsetData { data, .. } => 8 + data.len() <= NBD_MAX_PAYLOAD,
        ChunkPayloadView::OffsetHole { .. } => true,
        ChunkPayloadView::BlockStatus { descriptors, .. } => descriptors.len() >= 1 && 4 + 8
            * descriptors.len() <= NBD_MAX_PAYLOAD,
        ChunkPayloadView::ErrorDetail { message, .. } => message.len() <= 0xffff && 6
            + message.len() <= NBD_MAX_PAYLOAD,
    }
}

/// Bytes of a structured reply chunk.
pub open spec fn spec_encode_chunk(c: StructuredReplyChunkView) -> Seq<u8> {
    spec_u32_be(NBD_STRUCTURED_REPLY_MAGIC) + spec_u16_be(
        if c.done {
            1u16
        } else {
            0u16
        },
    ) + spec_u16_be(spec_chunk_type_number(c.payload)) + spec_u64_be(c.handle) + spec_u32_be(
        spec_chunk_payload_bytes(c.payload).len() as u32,
    ) + spec_chunk_payload_bytes(c.payload)
}

/// Decodes the payload of a chunk of wire type `t`.
pub open spec fn spec_decode_chunk_payload(t: u16, b: Seq<u8>) -> Result<
    ChunkPayloadView,
    DecodeError,
> {
    if t == NBD_REPLY_TYPE_NONE {
        if b.len() == 0 {
            Ok(ChunkPayloadView::NoPayload)
        } else {
            Err(DecodeError::Invalid)
        }
    } else if t == NBD_REPLY_TYPE_OFFSET_DATA {
        if b.len() >= 8 {
            Ok(ChunkPayloadView::OffsetData { offset: spec_u64_from_be(b), data: b.skip(8) })
        } else {
            Err(DecodeError::Invalid)
        }
    } else if t == NBD_REPLY_TYPE_OFFSET_HOLE {
        if b.len() == 12 {
            Ok(
                ChunkPayloadView::OffsetHole {
                    offset: spec_u64_from_be(b),
                    hole_size: spec_u32_from_be(b.skip(8)),
                },
            )
        } else {
            Err(DecodeError::Invalid)
        }
    } else if t == NBD_REPLY_TYPE_BLOCK_STATUS {
        if b.len() >= 12 && (b.len() - 4) % 8 == 0 {
            Ok(
                ChunkPayloadView::BlockStatus {
                    context_id: spec_u32_from_be(b),
                    descriptors: spec_decode_descriptors(b.skip(4)),
                },
            )
        } else {
            Err(DecodeError::Invalid)
        }
    } else if t == NBD_REPLY_TYPE_ERROR {
        if b.len() >= 6 && spec_u16_from_be(b.skip(4)) == b.len() - 6 {
            Ok(ChunkPayloadView::ErrorDetail { error: spec_u32_from_be(b), message: b.skip(6) })
        } else {
            Err(DecodeError::Invalid)
        }
    } else {
        Err(DecodeError::Invalid)
    }
}

/// Decodes one structured reply chunk.
pub open spec fn spec_decode_chunk(b: Seq<u8>) -> Result<
    (StructuredReplyChunkView, int),
    DecodeError,
> {
    if b.len() < 20 {
        Err(DecodeError::Incomplete)
    } else if spec_u32_from_be(b) != NBD_STRUCTURED_REPLY_MAGIC {
        Err(DecodeError::BadMagic)
    } else {
        let len = spec_u32_from_be(b.skip(16));
        if len > NBD_MAX_PAYLOAD {
            Err(DecodeError::TooLarge)
        } else if b.len() < 20 + len {
            Err(DecodeError::Incomplete)
        } else {
            match spec_decode_chunk_payload(spec_u16_from_be(b.skip(6)), b.subrange(20, 20 + len)) {
                Ok(p) => Ok(
                    (
                        StructuredReplyChunkView {
                            done: spec_u16_from_be(b.skip(4)) & 1 != 0,
                            handle: spec_u64_from_be(b.skip(8)),
                            payload: p,
                        },
                        20 + len,
                    ),
                ),
                Err(e) => Err(e),
            }
        }
    }
}

/// Encodes a chunk payload.
pub fn encode_chunk_payload(p: &ChunkPayload) -> (r: Vec<u8>)
    requires
        spec_chunk_payload_valid(p@),
    ensures
        r@ == spec_chunk_payload_bytes(p@),
{
    let mut r: Vec<u8> = Vec::new();
    match p {
        ChunkPayload::NoPayload => {},
        ChunkPayload::OffsetData { offset, data } => {
            push_u64_be(&mut r, *offset);
            push_bytes(&mut r, data);
        },
        ChunkPayload::OffsetHole { offset, hole_size } => {
            push_u64_be(&mut r, *offset);
            push_u32_be(&mut r, *hole_size);
        },
        ChunkPayload::BlockStatus { context_id, descriptors } => {
            push_u32_be(&mut r, *context_id);
            encode_descriptors(&mut r, descriptors);
        },
        ChunkPayload::ErrorDetail { error, message } => {
            push_u32_be(&mut r, *error);
            push_u16_be(&mut r, message.len() as u16);
            push_bytes(&mut r, message);
        },
    }
    r
}

/// Decodes the payload of a chunk of wire type `t`.
pub fn decode_chunk_payload(t: u16, b: &Vec<u8>) -> (r: Result<ChunkPayload, DecodeError>)
    ensures
        match r {
            Ok(p) => spec_decode_chunk_payload(t, b@) == Ok::<_, DecodeError>(p@),
            Err(e) => spec_decode_chunk_payload(t, b@) == Err::<ChunkPayloadView, _>(e),
        },
{
    let n: usize = b.len();
    if t == NBD_REPLY_TYPE_NONE {
        if n == 0 {
            Ok(ChunkPayload::NoPayload)
        } else {
            Err(DecodeError::Invalid)
        }
    } else if t == NBD_REPLY_TYPE_OFFSET_DATA {
        if n >= 8 {
            assert(b@.skip(0) == b@);
            let offset = get_u64_be(b, 0);
            let data = copy_range(b, 8, n - 8);
            assert(data@ =~= b@.skip(8));
            Ok(ChunkPayload::OffsetData { offset, data })
        } else {
            Err(DecodeError::Invalid)
        }
    } else if t == NBD_REPLY_TYPE_OFFSET_HOLE {
        if n == 12 {
            assert(b@.skip(0) == b@);
            Ok(ChunkPayload::OffsetHole { offset: get_u64_be(b, 0), hole_size: get_u32_be(b, 8) })
        } else {
            Err(DecodeError::Invalid)
        }
    } else if t == NBD_REPLY_TYPE_BLOCK_STATUS {
        if n >= 12 && (n - 4) % 8 == 0 {
            assert(b@.skip(0) == b@);
            let context_id = get_u32_be(b, 0);
            let descriptors = decode_descriptors(b, 4);
            Ok(ChunkPayload::BlockStatus { context_id, descriptors })
        } else {
            Err(DecodeError::Invalid)
        }
    } else if t == NBD_REPLY_TYPE_ERROR {
        if n >= 6 && get_u16_be(b, 4) as usize == n - 6 {
            assert(b@.skip(0) == b@);
            let error = get_u32_be(b, 0);
            let message = copy_range(b, 6, n - 6);
            assert(message@ =~= b@.skip(6));
            Ok(ChunkPayload::ErrorDetail { error, message })
        } else {
            Err(DecodeError::Invalid)
        }
    } else {
        Err(DecodeError::Invalid)
    }
}

impl StructuredReplyChunk {
    /// Encodes this chunk: header, then the typed payload.
    pub fn encode(&self) -> (r: Vec<u8>)
        requires
            spec_chunk_payload_valid(self.payload@),
        ensures
            r@ == spec_encode_chunk(self@),
    {
        let payload = encode_chunk_payload(&self.payload);
        proof {
            match self.payload@ {
                ChunkPayloadView::BlockStatus { descriptors, .. } => {
                    lemma_descriptors_bytes_len(descriptors);
                },
                _ => {},
            }
        }
        let type_number: u16 = match &self.payload {
            ChunkPayload::NoPayload => NBD_REPLY_TYPE_NONE,
            ChunkPayload::OffsetData { .. } => NBD_REPLY_TYPE_OFFSET_DATA,
            ChunkPayload::OffsetHole { .. } => NBD_REPLY_TYPE_OFFSET_HOLE,
            ChunkPayload::BlockStatus { .. } => NBD_REPLY_TYPE_BLOCK_STATUS,
            ChunkPayload::ErrorDetail { .. } => NBD_REPLY_TYPE_ERROR,
        };
        let mut r: Vec<u8> = Vec::new();
        push_u32_be(&mut r, NBD_STRUCTURED_REPLY_MAGIC);
        push_u16_be(
            &mut r,
            if self.done {
                1u16
            } else {
                0u16
            },
        );
        push_u16_be(&mut r, type_number);
        push_u64_be(&mut r, self.handle);
        push_u32_be(&mut r, payload.len() as u32);
        push_bytes(&mut r, &payload);
        r
    }

    /// Decodes one structured reply chunk from the front of `buf`,
    /// returning it with the number of bytes consumed.
    pub fn decode(buf: &Vec<u8>) -> (r: Result<(StructuredReplyChunk, usize), DecodeError>)
        ensures
            match r {
                Ok((c, n)) => spec_decode_chunk(buf@) == Ok::<_, DecodeError>((c@, n as int)),
                Err(e) => spec_decode_chunk(buf@) == Err::<(StructuredReplyChunkView, int), _>(e),
            },
    {
        if buf.len() < 20 {
            return Err(DecodeError::Incomplete);
        }
        assert(buf@.skip(0) == buf@);
        if get_u32_be(buf, 0) != NBD_STRUCTURED_REPLY_MAGIC {
            return Err(DecodeError::BadMagic);
        }
        let len = get_u32_be(buf, 16);
        if len > NBD_MAX_PAYLOAD {
            return Err(DecodeError::TooLarge);
        }
        if buf.len() < 20 + len as usize {
            return Err(DecodeError::Incomplete);
        }
        let payload_bytes = copy_range(buf, 20, len as usize);
        let payload = match decode_chunk_payload(get_u16_be(buf, 6), &payload_bytes) {
            Ok(p) => p,
            Err(e) => {
                return Err(e);
            },
        };
        let done = get_u16_be(buf, 4) & 1 != 0;
        let handle = get_u64_be(buf, 8);
        Ok((StructuredReplyChunk { done, handle, payload }, 20 + len as usize))
    }
}

/// A chunk payload decodes back, under its own wire type.
pub proof fn lemma_chunk_payload_round_trip(p: ChunkPayloadView)
    requires
        spec_chunk_payload_valid(p),
    ensures
        spec_decode_chunk_payload(spec_chunk_type_number(p), spec_chunk_payload_bytes(p)) == Ok::<
            _,
            DecodeError,
        >(p),
{
    let b = spec_chunk_payload_bytes(p);
    match p {
        ChunkPayloadView::NoPayload => {},
        ChunkPayloadView::OffsetData { offset, data } => {
            assert(b.len() == 8 + data.len());
            lemma_u64_be_round_trip(offset);
            assert(spec_u64_from_be(b) == offset);
            assert(b.skip(8) =~= data);
        },
        ChunkPayloadView::OffsetHole { offset, hole_size } => {
            assert(b.len() == 12);
            lemma_u64_be_round_trip(offset);
            assert(spec_u64_from_be(b) == offset);
            assert(b.skip(8) =~= spec_u32_be(hole_size));
            lemma_u32_be_round_trip(hole_size);
        },
        ChunkPayloadView::BlockStatus { context_id, descriptors } => {
            lemma_descriptors_bytes_len(descriptors);
            assert(b.len() == 4 + 8 * descriptors.len());
            lemma_u32_be_round_trip(context_id);
            assert(spec_u32_from_be(b) == context_id);
            assert(b.skip(4) =~= spec_descriptors_bytes(descriptors));
            lemma_descriptors_round_trip(descriptors);
        },
        ChunkPayloadView::ErrorDetail { error, message } => {
            assert(b.len() == 6 + message.len());
            lemma_u32_be_round_trip(error);
            assert(spec_u32_from_be(b) == error);
            assert(b.skip(4) =~= spec_u16_be(message.len() as u16) + message);
            lemma_u16_be_round_trip(message.len() as u16);
            assert(spec_u16_from_be(b.skip(4)) == message.len());
            assert(b.skip(6) =~= message);
        },
    }
}

/// A structured reply chunk decodes back to the chunk it was encoded
/// from.
pub proof fn lemma_chunk_round_trip(c: StructuredReplyChunkView)
    requires
        spec_chunk_payload_valid(c.payload),
    ensures
        spec_decode_chunk(spec_encode_chunk(c)) == Ok::<_, DecodeError>(
            (c, 20 + spec_chunk_payload_bytes(c.payload).len() as int),
        ),
{
    let b = spec_encode_chunk(c);
    let pb = spec_chunk_payload_bytes(c.payload);
    let fw: u16 = if c.done {
        1u16
    } else {
        0u16
    };
    let tn = spec_chunk_type_number(c.payload);
    match c.payload {
        ChunkPayloadView::BlockStatus { descriptors, .. } => {
            lemma_descriptors_bytes_len(descriptors);
        },
        _ => {},
    }
    assert(pb.len() <= NBD_MAX_PAYLOAD);
    assert(b.len() == 20 + pb.len());
    lemma_u32_be_round_trip(NBD_STRUCTURED_REPLY_MAGIC);
    assert(spec_u32_from_be(b) == NBD_STRUCTURED_REPLY_MAGIC);
    assert(b.skip(4) =~= spec_u16_be(fw) + (spec_u16_be(tn) + (spec_u64_be(c.handle) + (
    spec_u32_be(pb.len() as u32) + pb))));
    lemma_u16_be_round_trip(fw);
    assert(spec_u16_from_be(b.skip(4)) == fw);
    assert(1u16 & 1 != 0) by (bit_vector);
    assert(0u16 & 1 == 0) by (bit_vector);
    assert((spec_u16_from_be(b.skip(4)) & 1 != 0) == c.done);
    assert(b.skip(6) =~= spec_u16_be(tn) + (spec_u64_be(c.handle) + (spec_u32_be(pb.len() as u32)
        + pb)));
    lemma_u16_be_round_trip(tn);
    assert(spec_u16_from_be(b.skip(6)) == tn);
    assert(b.skip(8) =~= spec_u64_be(c.handle) + (spec_u32_be(pb.len() as u32) + pb));
    lemma_u64_be_round_trip(c.handle);
    assert(spec_u64_from_be(b.skip(8)) == c.handle);
    assert(b.skip(16) =~= spec_u32_be(pb.len() as u32) + pb);
    lemma_u32_be_round_trip(pb.len() as u32);
    assert(spec_u32_from_be(b.skip(16)) == pb.len());
    assert(b.subrange(20, 20 + pb.len() as int) =~= pb);
    lemma_chunk_payload_round_trip(c.payload);
}

} // verus!
