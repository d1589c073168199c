//! Server-side engine for the Network Block Device (NBD) wire protocol.
//!
//! The crate holds the pure, verified core of an NBD server: the wire
//! codec for every on-wire structure, the option-haggling state machine
//! that drives newstyle negotiation, the export directory, and the
//! transmission engine that turns client commands into storage operations
//! and replies. Socket handling is left to the surrounding program; every
//! function here maps plain values to plain values.
//!
//! - [`wire`]: big-endian integer fields and their round-trip lemmas.
//! - [`flags`]: typed bit sets for every flag word.
//! - [`codec`]: handshake and option frames, encode and decode.
//! - [`chunks`]: transmission requests, simple replies, reply chunks.
//! - [`frame`]: one frame type over every message, and its round-trip
//!   law.
//! - [`directory`]: the export lookup service.
//! - [`negotiator`]: the per-connection handshake and haggling state
//!   machine.
//! - [`engine`]: request validation and reply construction for the
//!   transmission phase.

pub mod chunks;
pub mod codec;
pub mod consts;
pub mod directory;
pub mod engine;
pub mod flags;
pub mod frame;
pub mod negotiator;
pub mod wire;
