//! Typed bit-set values for every flag field of the protocol.
//!
//! Each 16- or 32-bit flag word of the wire format is represented past the
//! wire boundary as a struct of named booleans, with conversions to and
//! from the raw bits and round-trip lemmas for the conversions.

use vstd::prelude::*;

verus! {

/// Handshake flags the server advertises in its greeting (16-bit field).
#[derive(Clone, Copy, Debug, PartialEq, Eq, Structural)]
pub struct HandshakeFlags {
    pub fixed_newstyle: bool,
    pub no_zeroes: bool,
}

/// Handshake flags the client echoes back (32-bit field).
#[derive(Clone, Copy, Debug, PartialEq, Eq, Structural)]
pub struct ClientHandshakeFlags {
    pub fixed_newstyle: bool,
    pub no_zeroes: bool,
}

/// Per-command flags of a transmission request (16-bit field).
#[derive(Clone, Copy, Debug, PartialEq, Eq, Structural)]
pub struct CmdFlags {
    /// Force a durability barrier before the reply is sent.
    pub fua: bool,
    /// Forbid sparsifying a write-zeroes region.
    pub no_hole: bool,
    /// Forbid splitting a structured read reply across a hole.
    pub df: bool,
    /// Limit a block-status reply to a single descriptor.
    pub req_one: bool,
    /// Ask a write-zeroes to fail fast when it cannot be accelerated.
    pub fast_zero: bool,
}

/// Per-export transmission flags (16-bit field). `HAS_FLAGS` is implied
/// and always set on the wire.
#[derive(Clone, Copy, Debug, PartialEq, Eq, Structural)]
pub struct TransmissionFlags {
    pub read_only: bool,
    pub send_flush: bool,
    pub send_fua: bool,
    pub rotational: bool,
    pub send_trim: bool,
    pub send_write_zeroes: bool,
    pub send_df: bool,
}

/// Wire bits of the server handshake flags.
pub open spec fn spec_handshake_bits(f: HandshakeFlags) -> u16 {
    (if f.fixed_newstyle {
        1u16
    } else {
        0u16
    }) | (if f.no_zeroes {
        2u16
    } else {
        0u16
    })
}

/// Server handshake flags read from wire bits; unnamed bits are dropped.
pub open spec fn spec_handshake_of_bits(bits: u16) -> HandshakeFlags {
    HandshakeFlags { fixed_newstyle: bits & 1 != 0, no_zeroes: bits & 2 != 0 }
}

/// Wire bits of the client handshake flags.
pub open spec fn spec_client_flag_bits(f: ClientHandshakeFlags) -> u32 {
    (if f.fixed_newstyle {
        1u32
    } else {
        0u32
    }) | (if f.no_zeroes {
        2u32
    } else {
        0u32
    })
}

/// Client handshake flags read from wire bits; unnamed bits are dropped.
pub open spec fn spec_client_flags_of_bits(bits: u32) -> ClientHandshakeFlags {
    ClientHandshakeFlags { fixed_newstyle: bits & 1 != 0, no_zeroes: bits & 2 != 0 }
}

/// Wire bits of the per-command flags.
pub open spec fn spec_cmd_flag_bits(f: CmdFlags) -> u16 {
    (if f.fua {
        1u16
    } else {
        0u16
    }) | (if f.no_hole {
        2u16
    } else {
        0u16
    }) | (if f.df {
        4u16
    } else {
        0u16
    }) | (if f.req_one {
        8u16
    } else {
        0u16
    }) | (if f.fast_zero {
        16u16
    } else {
        0u16
    })
}

/// Per-command flags read from wire bits; unnamed bits are dropped.
pub open spec fn spec_cmd_flags_of_bits(bits: u16) -> CmdFlags {
    CmdFlags {
        fua: bits & 1 != 0,
        no_hole: bits & 2 != 0,
        df: bits & 4 != 0,
        req_one: bits & 8 != 0,
        fast_zero: bits & 16 != 0,
    }
}

/// Wire bits of the per-export transmission flags; `HAS_FLAGS` (bit 0) is
/// always set.
pub open spec fn spec_transmission_flag_bits(f: TransmissionFlags) -> u16 {
    1u16 | (if f.read_only {
        2u16
    } else {
        0u16
    }) | (if f.send_flush {
        4u16
    } else {
        0u16
    }) | (if f.send_fua {
        8u16
    } else {
        0u16
    }) | (if f.rotational {
        16u16
    } else {
        0u16
    }) | (if f.send_trim {
        32u16
    } else {
        0u16
    }) | (if f.send_write_zeroes {
        64u16
    } else {
        0u16
    }) | (if f.send_df {
        128u16
    } else {
        0u16
    })
}

/// Per-export transmission flags read from wire bits.
pub open spec fn spec_transmission_flags_of_bits(bits: u16) -> TransmissionFlags {
    TransmissionFlags {
        read_only: bits & 2 != 0,
        send_flush: bits & 4 != 0,
        send_fua: bits & 8 != 0,
        rotational: bits & 16 != 0,
        send_trim: bits & 32 != 0,
        send_write_zeroes: bits & 64 != 0,
        send_df: bits & 128 != 0,
    }
}

/// Reading back the bits of server handshake flags gives the flags back.
pub proof fn lemma_handshake_flags_round_trip(f: HandshakeFlags)
    ensures
        spec_handshake_of_bits(spec_handshake_bits(f)) == f,
{
    let x: u16 = if f.fixed_newstyle { 1 } else { 0 };
    let y: u16 = if f.no_zeroes { 2 } else { 0 };
    assert((x == 0 || x == 1) && (y == 0 || y == 2) ==> (((x | y) & 1 != 0) == (x == 1) && ((x
        | y) & 2 != 0) == (y == 2))) by (bit_vector);
}

/// Reading back the bits of client handshake flags gives the flags back.
pub proof fn lemma_client_flags_round_trip(f: ClientHandshakeFlags)
    ensures
        spec_client_flags_of_bits(spec_client_flag_bits(f)) == f,
{
    let x: u32 = if f.fixed_newstyle { 1 } else { 0 };
    let y: u32 = if f.no_zeroes { 2 } else { 0 };
    assert((x == 0 || x == 1) && (y == 0 || y == 2) ==> (((x | y) & 1 != 0) == (x == 1) && ((x
        | y) & 2 != 0) == (y == 2))) by (bit_vector);
}

/// Reading back the bits of per-command flags gives the flags back.
pub proof fn lemma_cmd_flags_round_trip(f: CmdFlags)
    ensures
        spec_cmd_flags_of_bits(spec_cmd_flag_bits(f)) == f,
{
    let a: u16 = if f.fua { 1 } else { 0 };
    let b: u16 = if f.no_hole { 2 } else { 0 };
    let c: u16 = if f.df { 4 } else { 0 };
    let d: u16 = if f.req_one { 8 } else { 0 };
    let e: u16 = if f.fast_zero { 16 } else { 0 };
    assert((a == 0 || a == 1) && (b == 0 || b == 2) && (c == 0 || c == 4) && (d == 0 || d == 8) && (
    e == 0 || e == 16) ==> {
        let v = a | b | c | d | e;
        (v & 1 != 0) == (a == 1) && (v & 2 != 0) == (b == 2) && (v & 4 != 0) == (c == 4) && (v & 8
            != 0) == (d == 8) && (v & 16 != 0) == (e == 16)
    }) by (bit_vector);
}

/// Reading back the bits of per-export flags gives the flags back.
pub proof fn lemma_transmission_flags_round_trip(f: TransmissionFlags)
    ensures
        spec_transmission_flags_of_bits(spec_transmission_flag_bits(f)) == f,
{
    let a: u16 = if f.read_only { 2 } else { 0 };
    let b: u16 = if f.send_flush { 4 } else { 0 };
    let c: u16 = if f.send_fua { 8 } else { 0 };
    let d: u16 = if f.rotational { 16 } else { 0 };
    let e: u16 = if f.send_trim { 32 } else { 0 };
    let g: u16 = if f.send_write_zeroes { 64 } else { 0 };
    let h: u16 = if f.send_df { 128 } else { 0 };
    assert((a == 0 || a == 2) && (b == 0 || b == 4) && (c == 0 || c == 8) && (d == 0 || d == 16) && (
    e == 0 || e == 32) && (g == 0 || g == 64) && (h == 0 || h == 128) ==> {
        let v = 1u16 | a | b | c | d | e | g | h;
        (v & 2 != 0) == (a == 2) && (v & 4 != 0) == (b == 4) && (v & 8 != 0) == (c == 8) && (v & 16
            != 0) == (d == 16) && (v & 32 != 0) == (e == 32) && (v & 64 != 0) == (g == 64) && (v
            & 128 != 0) == (h == 128)
    }) by (bit_vector);
}

impl HandshakeFlags {
    /// The pair of flags this server always advertises.
    pub fn server_default() -> (r: HandshakeFlags)
        ensures
            r.fixed_newstyle && r.no_zeroes,
    {
        HandshakeFlags { fixed_newstyle: true, no_zeroes: true }
    }

    /// Packs the flags into their 16-bit wire field.
    pub fn to_bits(&self) -> (r: u16)
        ensures
            r == spec_handshake_bits(*self),
    {
        (if self.fixed_newstyle {
            1u16
        } else {
            0u16
        }) | (if self.no_zeroes {
            2u16
        } else {
            0u16
        })
    }

    /// Reads the flags out of their 16-bit wire field.
    pub fn from_bits(bits: u16) -> (r: HandshakeFlags)
        ensures
            r == spec_handshake_of_bits(bits),
    {
        HandshakeFlags { fixed_newstyle: bits & 1 != 0, no_zeroes: bits & 2 != 0 }
    }
}

impl ClientHandshakeFlags {
    /// Packs the flags into their 32-bit wire field.
    pub fn to_bits(&self) -> (r: u32)
        ensures
            r == spec_client_flag_bits(*self),
    {
        (if self.fixed_newstyle {
            1u32
        } else {
            0u32
        }) | (if self.no_zeroes {
            2u32
        } else {
            0u32
        })
    }

    /// Reads the flags out of their 32-bit wire field.
    pub fn from_bits(bits: u32) -> (r: ClientHandshakeFlags)
        ensures
            r == spec_client_flags_of_bits(bits),
    {
        ClientHandshakeFlags { fixed_newstyle: bits & 1 != 0, no_zeroes: bits & 2 != 0 }
    }
}

impl CmdFlags {
    /// Flags with every bit clear.
    pub fn none() -> (r: CmdFlags)
        ensures
            r == (CmdFlags {
                fua: false,
                no_hole: false,
                df: false,
                req_one: false,
                fast_zero: false,
            }),
    {
        CmdFlags { fua: false, no_hole: false, df: false, req_one: false, fast_zero: false }
    }

    /// Packs the flags into their 16-bit wire field.
    pub fn to_bits(&self) -> (r: u16)
        ensures
            r == spec_cmd_flag_bits(*self),
    {
        (if self.fua {
            1u16
        } else {
            0u16
        }) | (if self.no_hole {
            2u16
        } else {
            0u16
        }) | (if self.df {
            4u16
        } else {
            0u16
        }) | (if self.req_one {
            8u16
        } else {
            0u16
        }) | (if self.fast_zero {
            16u16
        } else {
            0u16
        })
    }

    /// Reads the flags out of their 16-bit wire field.
    pub fn from_bits(bits: u16) -> (r: CmdFlags)
        ensures
            r == spec_cmd_flags_of_bits(bits),
    {
        CmdFlags {
            fua: bits & 1 != 0,
            no_hole: bits & 2 != 0,
            df: bits & 4 != 0,
            req_one: bits & 8 != 0,
            fast_zero: bits & 16 != 0,
        }
    }
}

impl TransmissionFlags {
    /// Packs the flags into their 16-bit wire field, with `HAS_FLAGS` set.
    pub fn to_bits(&self) -> (r: u16)
        ensures
            r == spec_transmission_flag_bits(*self),
    {
        1u16 | (if self.read_only {
            2u16
        } else {
            0u16
        }) | (if self.send_flush {
            4u16
        } else {
            0u16
        }) | (if self.send_fua {
            8u16
        } else {
            0u16
        }) | (if self.rotational {
            16u16
        } else {
            0u16
        }) | (if self.send_trim {
            32u16
        } else {
            0u16
        }) | (if self.send_write_zeroes {
            64u16
        } else {
            0u16
        }) | (if self.send_df {
            128u16
        } else {
            0u16
        })
    }

    /// Reads the flags out of their 16-bit wire field.
    pub fn from_bits(bits: u16) -> (r: TransmissionFlags)
        ensures
            r == spec_transmission_flags_of_bits(bits),
    {
        TransmissionFlags {
            read_only: bits & 2 != 0,
            send_flush: bits & 4 != 0,
            send_fua: bits & 8 != 0,
            rotational: bits & 16 != 0,
            send_trim: bits & 32 != 0,
            send_write_zeroes: bits & 64 != 0,
            send_df: bits & 128 != 0,
        }
    }
}

} // verus!
