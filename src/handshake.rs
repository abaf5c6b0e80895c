//! The handshake records C0/S0 and C1/S1/S2 (C2 has the layout of C1), and
//! the server's reply to a client's C0 and C1.

use vstd::prelude::*;
use crate::bytes::{be32, be32_bytes, copy_range, push_all, push_be32, read_be32};
use crate::codec::{CodecError, Serializable};

verus! {

/// Size of C1, S1, S2 and C2.
pub const HANDSHAKE_SIZE: usize = 1536;

/// Size of the random part of C1, S1, S2 and C2.
pub const RANDOM_SIZE: usize = 1528;

/// The protocol version this server speaks.
pub const RTMP_VERSION: u8 = 3;

/// The timestamp the server puts in S1.
pub const SERVER_TIMESTAMP: u32 = 1;

/// C0 or S0: the protocol version.
#[derive(Clone, Copy, Debug, PartialEq, Eq, Structural)]
pub struct CS0 {
    pub version: u8,
}

/// C1, S1, S2 or C2: a timestamp, a zero field and random bytes.
#[derive(Clone, Debug)]
pub struct CS1 {
    pub timestamp: u32,
    pub zero: u32,
    pub random_bytes: Vec<u8>,
}

/// The contents of a `CS1`.
pub struct CS1View {
    pub timestamp: u32,
    pub zero: u32,
    pub random_bytes: Seq<u8>,
}

impl View for CS0 {
    type V = CS0;

    open spec fn view(&self) -> CS0 {
        *self
    }
}

impl View for CS1 {
    type V = CS1View;

    open spec fn view(&self) -> CS1View {
        CS1View { timestamp: self.timestamp, zero: self.zero, random_bytes: self.random_bytes@ }
    }
}

impl Serializable for CS0 {
    open spec fn writable(&self) -> bool {
        true
    }

    open spec fn wire(&self) -> Seq<u8> {
        seq![self.version]
    }

    open spec fn read_spec(input: Seq<u8>) -> Result<(CS0, usize), CodecError> {
        if input.len() == 0 {
            Err(CodecError::ShortRead)
        } else {
            Ok((CS0 { version: input[0] }, 1))
        }
    }

    fn serialize(&self) -> (r: Vec<u8>) {
        let mut out: Vec<u8> = Vec::new();
        out.push(self.version);
        assert(out@ =~= self.wire());
        out
    }

    fn deserialize(input: &[u8]) -> (r: Result<(CS0, usize), CodecError>) {
        if input.len() == 0 {
            return Err(CodecError::ShortRead);
        }
        Ok((CS0 { version: input[0] }, 1))
    }
}

/// The encoding of a C1-layout record with these fields.
pub open spec fn cs1_wire(timestamp: u32, zero: u32, random_bytes: Seq<u8>) -> Seq<u8> {
    be32_bytes(timestamp as nat) + be32_bytes(zero as nat) + random_bytes
}

impl Serializable for CS1 {
    open spec fn writable(&self) -> bool {
        self.random_bytes@.len() == RANDOM_SIZE
    }

    open spec fn wire(&self) -> Seq<u8> {
        cs1_wire(self.timestamp, self.zero, self.random_bytes@)
    }

    open spec fn read_spec(input: Seq<u8>) -> Result<(CS1View, usize), CodecError> {
        if input.len() < HANDSHAKE_SIZE {
            Err(CodecError::ShortRead)
        } else {
            Ok(
                (
                    CS1View {
                        timestamp: be32(input, 0) as u32,
                        zero: be32(input, 4) as u32,
                        random_bytes: input.subrange(8, HANDSHAKE_SIZE as int),
                    },
                    HANDSHAKE_SIZE,
                ),
            )
        }
    }

    fn serialize(&self) -> (r: Vec<u8>) {
        let mut out: Vec<u8> = Vec::new();
        push_be32(&mut out, self.timestamp);
        push_be32(&mut out, self.zero);
        push_all(&mut out, self.random_bytes.as_slice());
        out
    }

    fn deserialize(input: &[u8]) -> (r: Result<(CS1, usize), CodecError>) {
        if input.len() < HANDSHAKE_SIZE {
            return Err(CodecError::ShortRead);
        }
        let rec = CS1 {
            timestamp: read_be32(input, 0),
            zero: read_be32(input, 4),
            random_bytes: copy_range(input, 8, HANDSHAKE_SIZE),
        };
        Ok((rec, HANDSHAKE_SIZE))
    }
}

/// The server's reply to C0 and C1: S0 echoes the client's version; S1 holds
/// the server timestamp, a zero field and `s1_random`; S2 echoes C1's
/// timestamp and random bytes with a zero field.
pub open spec fn handshake_reply_spec(c0: CS0, c1: CS1View, s1_random: Seq<u8>) -> Seq<u8> {
    seq![c0.version] + cs1_wire(SERVER_TIMESTAMP, 0, s1_random) + cs1_wire(
        c1.timestamp,
        0,
        c1.random_bytes,
    )
}

/// Builds S0, S1 and S2 in the order they are sent.
pub fn handshake_reply(c0: &CS0, c1: &CS1, s1_random: Vec<u8>) -> (r: Vec<u8>)
    requires
        s1_random@.len() == RANDOM_SIZE,
        c1.random_bytes@.len() == RANDOM_SIZE,
    ensures
        r@ == handshake_reply_spec(*c0, c1@, s1_random@),
        r@.len() == 1 + 2 * HANDSHAKE_SIZE,
{
    let s0 = CS0 { version: c0.version };
    let s1 = CS1 { timestamp: SERVER_TIMESTAMP, zero: 0, random_bytes: s1_random };
    let s2 = CS1 { timestamp: c1.timestamp, zero: 0, random_bytes: c1.random_bytes.clone() };
    let mut out = s0.serialize();
    let b1 = s1.serialize();
    let b2 = s2.serialize();
    push_all(&mut out, b1.as_slice());
    push_all(&mut out, b2.as_slice());
    assert(out@ =~= handshake_reply_spec(*c0, c1@, s1_random@));
    out
}

/// `n` bytes drawn from the thread-local random generator.
pub fn random_bytes(n: usize) -> (r: Vec<u8>)
    ensures
        r@.len() == n,
{
    let mut out: Vec<u8> = Vec::new();
    let mut i: usize = 0;
    while i < n
        invariant
            i <= n,
            out@.len() == i,
        decreases n - i,
    {
        out.push(rand::random::<u8>());
        i = i + 1;
    }
    out
}

/// Relies on rand::random: draws a value from the thread-local generator.
/// Nothing is known of the value.
pub assume_specification<T>[ rand::random::<T> ]() -> (r: T)
    where
        rand::distributions::Standard: rand::distributions::Distribution<T>,
;

} // verus!
