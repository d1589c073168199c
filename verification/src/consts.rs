//! Constants of the NBD wire protocol: magic numbers, flag bits, option
//! codes, reply types and structured-reply chunk types.

use vstd::prelude::*;

verus! {

/// Default TCP port of the protocol.
pub const NBD_DEFAULT_PORT: u16 = 10809;

// Handshake flags advertised by the server (16-bit field).
pub const NBD_FLAG_FIXED_NEWSTYLE: u16 = 1;
pub const NBD_FLAG_NO_ZEROES: u16 = 2;

// Handshake flags echoed by the client (32-bit field).
pub const NBD_FLAG_C_FIXED_NEWSTYLE: u32 = 1;
pub const NBD_FLAG_C_NO_ZEROES: u32 = 2;

/// ASCII `NBDMAGIC`: first magic of the server greeting.
pub const NBD_INIT_MAGIC: u64 = 0x4e42444d41474943;
/// ASCII `IHAVEOPT`: second magic of the greeting, and prefix of every
/// client option request.
pub const NBD_OPTS_MAGIC: u64 = 0x49484156454F5054;
/// Prefix of every option reply the server sends during haggling.
pub const NBD_REP_MAGIC: u64 = 0x3e889045565a9;
/// Prefix of a simple transmission reply.
pub const NBD_SIMPLE_REPLY_MAGIC: u32 = 0x67446698;
/// Prefix of every transmission request.
pub const NBD_REQUEST_MAGIC: u32 = 0x25609513;
/// Prefix of a structured reply chunk.
pub const NBD_STRUCTURED_REPLY_MAGIC: u32 = 0x668e33ef;

// Option codes sent by the client during haggling.
pub const NBD_OPT_EXPORT_NAME: u32 = 1;
pub const NBD_OPT_ABORT: u32 = 2;
pub const NBD_OPT_LIST: u32 = 3;
pub const NBD_OPT_STARTTLS: u32 = 5;
pub const NBD_OPT_INFO: u32 = 6;
pub const NBD_OPT_GO: u32 = 7;
pub const NBD_OPT_STRUCTURED_REPLY: u32 = 8;
pub const NBD_OPT_LIST_META_CONTEXT: u32 = 9;
pub const NBD_OPT_SET_META_CONTEXT: u32 = 10;

// Option reply types. An error reply carries NBD_REP_FLAG_ERROR.
pub const NBD_REP_ACK: u32 = 1;
pub const NBD_REP_SERVER: u32 = 2;
pub const NBD_REP_INFO: u32 = 3;
pub const NBD_REP_META_CONTEXT: u32 = 4;
pub const NBD_REP_FLAG_ERROR: u32 = 0x80000000;
pub const NBD_REP_ERR_UNSUP: u32 = 0x80000001;
pub const NBD_REP_ERR_POLICY: u32 = 0x80000002;
pub const NBD_REP_ERR_INVALID: u32 = 0x80000003;
pub const NBD_REP_ERR_UNKNOWN: u32 = 0x80000006;

// Information types carried in an export-info reply payload.
pub const NBD_INFO_EXPORT: u16 = 0;
pub const NBD_INFO_BLOCK_SIZE: u16 = 3;

// Status bits of a block-status descriptor.
pub const NBD_STATE_HOLE: u32 = 1;
pub const NBD_STATE_ZERO: u32 = 2;

/// Size in bytes of a transmission request header.
pub const NBD_REQUEST_SIZE: u32 = 28;
/// Size in bytes of an option request header (magic, code, length).
pub const NBD_OPTION_HEADER_SIZE: u32 = 16;
/// Size in bytes of an option reply header.
pub const NBD_REPLY_HEADER_SIZE: u32 = 20;
/// Size in bytes of a simple transmission reply header.
pub const NBD_SIMPLE_REPLY_SIZE: u32 = 16;
/// Size in bytes of a structured reply chunk header.
pub const NBD_CHUNK_HEADER_SIZE: u32 = 20;

/// Upper bound accepted for any client-supplied length field. A frame
/// claiming more is rejected before any buffer is sized from it.
pub const NBD_MAX_PAYLOAD: u32 = 0x2000000;

// Per-command flags of a transmission request (16-bit field).
pub const NBD_CMD_FLAG_FUA: u16 = 1;
pub const NBD_CMD_FLAG_NO_HOLE: u16 = 2;
pub const NBD_CMD_FLAG_DF: u16 = 4;
pub const NBD_CMD_FLAG_REQ_ONE: u16 = 8;
pub const NBD_CMD_FLAG_FAST_ZERO: u16 = 16;

// Transmission command types (16-bit field).
pub const NBD_CMD_READ: u16 = 0;
pub const NBD_CMD_WRITE: u16 = 1;
pub const NBD_CMD_DISC: u16 = 2;
pub const NBD_CMD_FLUSH: u16 = 3;
pub const NBD_CMD_TRIM: u16 = 4;
pub const NBD_CMD_WRITE_ZEROES: u16 = 6;
pub const NBD_CMD_BLOCK_STATUS: u16 = 7;

// Transmission flags of an export (16-bit field).
pub const NBD_FLAG_HAS_FLAGS: u16 = 1;
pub const NBD_FLAG_READ_ONLY: u16 = 2;
pub const NBD_FLAG_SEND_FLUSH: u16 = 4;
pub const NBD_FLAG_SEND_FUA: u16 = 8;
pub const NBD_FLAG_ROTATIONAL: u16 = 16;
pub const NBD_FLAG_SEND_TRIM: u16 = 32;
pub const NBD_FLAG_SEND_WRITE_ZEROES: u16 = 64;
pub const NBD_FLAG_SEND_DF: u16 = 128;

// Block size bounds reported in an export-info reply.
pub const MIN_BLOCK_SIZE: u32 = 1;
pub const PREFERRED_BLOCK_SIZE: u32 = 4096;
pub const MAX_BLOCK_SIZE: u32 = 0x2000000;

// Structured reply: chunk flags and chunk types.
pub const NBD_REPLY_FLAG_DONE: u16 = 1;
pub const NBD_REPLY_TYPE_NONE: u16 = 0;
pub const NBD_REPLY_TYPE_OFFSET_DATA: u16 = 1;
pub const NBD_REPLY_TYPE_OFFSET_HOLE: u16 = 2;
pub const NBD_REPLY_TYPE_BLOCK_STATUS: u16 = 5;
pub const NBD_REPLY_TYPE_ERROR: u16 = 0x8001;

// Error codes carried in transmission replies (errno values fixed by the
// protocol).
pub const NBD_EPERM: u32 = 1;
pub const NBD_EIO: u32 = 5;
pub const NBD_EINVAL: u32 = 22;
pub const NBD_ENOSPC: u32 = 28;
pub const NBD_EOVERFLOW: u32 = 75;
pub const NBD_ESHUTDOWN: u32 = 108;

} // verus!
