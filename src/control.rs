//! Protocol control messages: their payload layouts.

use vstd::prelude::*;
use crate::bytes::{be32, be32_bytes, lemma_be32_round_trip, push_be32, read_be32};
use crate::codec::{CodecError, Serializable};

verus! {

/// Message type 1: the largest chunk payload the sender will use from now on.
#[derive(Clone, Copy, Debug, PartialEq, Eq, Structural)]
pub struct SetChunkSize {
    pub chunk_size: u32,
}

/// Message type 5: the number of bytes after which the sender wants an
/// acknowledgement.
#[derive(Clone, Copy, Debug, PartialEq, Eq, Structural)]
pub struct WindowAcknowledgementSize {
    pub window_acknowledgement_size: u32,
}

/// Message type 6: the peer's output bandwidth limit and how to apply it
/// (0 hard, 1 soft, 2 dynamic).
#[derive(Clone, Copy, Debug, PartialEq, Eq, Structural)]
pub struct SetPeerBandwidth {
    pub window_acknowledgement_size: u32,
    pub limit_type: u8,
}

/// Bit 31 of a chunk size is reserved and always zero.
pub const CHUNK_SIZE_MASK: u32 = 0x7fff_ffff;

/// The largest limit type of SetPeerBandwidth (dynamic).
pub const MAX_LIMIT_TYPE: u8 = 2;

impl View for SetChunkSize {
    type V = SetChunkSize;

    open spec fn view(&self) -> SetChunkSize {
        *self
    }
}

impl View for WindowAcknowledgementSize {
    type V = WindowAcknowledgementSize;

    open spec fn view(&self) -> WindowAcknowledgementSize {
        *self
    }
}

impl View for SetPeerBandwidth {
    type V = SetPeerBandwidth;

    open spec fn view(&self) -> SetPeerBandwidth {
        *self
    }
}

impl Serializable for SetChunkSize {
    open spec fn writable(&self) -> bool {
        true
    }

    /// The chunk size with bit 31 cleared, big-endian.
    open spec fn wire(&self) -> Seq<u8> {
        be32_bytes(self.chunk_size as nat % 0x8000_0000)
    }

    /// The four bytes big-endian with bit 31 cleared.
    open spec fn read_spec(input: Seq<u8>) -> Result<(SetChunkSize, usize), CodecError> {
        if input.len() < 4 {
            Err(CodecError::ShortRead)
        } else {
            Ok((SetChunkSize { chunk_size: (be32(input, 0) % 0x8000_0000) as u32 }, 4))
        }
    }

    fn serialize(&self) -> (r: Vec<u8>) {
        let mut out: Vec<u8> = Vec::new();
        push_be32(&mut out, self.chunk_size % 0x8000_0000);
        out
    }

    fn deserialize(input: &[u8]) -> (r: Result<(SetChunkSize, usize), CodecError>) {
        if input.len() < 4 {
            return Err(CodecError::ShortRead);
        }
        let v = read_be32(input, 0);
        Ok((SetChunkSize { chunk_size: v % 0x8000_0000 }, 4))
    }
}

/// The high bit of a written chunk size is always zero, and reading the four
/// bytes back gives the low 31 bits of the chunk size.
pub proof fn lemma_chunk_size_mask(m: SetChunkSize, rest: Seq<u8>)
    ensures
        m.wire().len() == 4,
        m.wire()[0] < 0x80,
        SetChunkSize::read_spec(m.wire() + rest) == Ok::<(SetChunkSize, usize), CodecError>(
            (SetChunkSize { chunk_size: m.chunk_size & CHUNK_SIZE_MASK }, 4),
        ),
{
    let c = m.chunk_size;
    let v = (c % 0x8000_0000) as u32;
    lemma_be32_round_trip(v);
    assert(c & 0x7fff_ffff == c % 0x8000_0000) by (bit_vector);
    assert((c % 0x8000_0000) / 16777216 % 256 < 0x80) by (bit_vector);
    let input = m.wire() + rest;
    assert(input[0] == m.wire()[0] && input[1] == m.wire()[1] && input[2] == m.wire()[2]
        && input[3] == m.wire()[3]);
}

impl Serializable for WindowAcknowledgementSize {
    open spec fn writable(&self) -> bool {
        true
    }

    open spec fn wire(&self) -> Seq<u8> {
        be32_bytes(self.window_acknowledgement_size as nat)
    }

    open spec fn read_spec(input: Seq<u8>) -> Result<(WindowAcknowledgementSize, usize), CodecError> {
        if input.len() < 4 {
            Err(CodecError::ShortRead)
        } else {
            Ok((WindowAcknowledgementSize { window_acknowledgement_size: be32(input, 0) as u32 }, 4))
        }
    }

    fn serialize(&self) -> (r: Vec<u8>) {
        let mut out: Vec<u8> = Vec::new();
        push_be32(&mut out, self.window_acknowledgement_size);
        out
    }

    fn deserialize(input: &[u8]) -> (r: Result<(WindowAcknowledgementSize, usize), CodecError>) {
        if input.len() < 4 {
            return Err(CodecError::ShortRead);
        }
        Ok((WindowAcknowledgementSize { window_acknowledgement_size: read_be32(input, 0) }, 4))
    }
}

impl Serializable for SetPeerBandwidth {
    open spec fn writable(&self) -> bool {
        self.limit_type <= MAX_LIMIT_TYPE
    }

    open spec fn wire(&self) -> Seq<u8> {
        be32_bytes(self.window_acknowledgement_size as nat) + seq![self.limit_type]
    }

    /// Five bytes: the window big-endian, then the limit type, which must be
    /// 0, 1 or 2.
    open spec fn read_spec(input: Seq<u8>) -> Result<(SetPeerBandwidth, usize), CodecError> {
        if input.len() < 5 {
            Err(CodecError::ShortRead)
        } else if input[4] > MAX_LIMIT_TYPE {
            Err(CodecError::Reserved)
        } else {
            Ok(
                (
                    SetPeerBandwidth {
                        window_acknowledgement_size: be32(input, 0) as u32,
                        limit_type: input[4],
                    },
                    5,
                ),
            )
        }
    }

    fn serialize(&self) -> (r: Vec<u8>) {
        let mut out: Vec<u8> = Vec::new();
        push_be32(&mut out, self.window_acknowledgement_size);
        out.push(self.limit_type);
        out
    }

    fn deserialize(input: &[u8]) -> (r: Result<(SetPeerBandwidth, usize), CodecError>) {
        if input.len() < 5 {
            return Err(CodecError::ShortRead);
        }
        if input[4] > MAX_LIMIT_TYPE {
            return Err(CodecError::Reserved);
        }
        Ok(
            (
                SetPeerBandwidth {
                    window_acknowledgement_size: read_be32(input, 0),
                    limit_type: input[4],
                },
                5,
            ),
        )
    }
}

} // verus!
