//! Wire codecs of the chunk layer: the error kinds, the `Serializable`
//! record interface, the basic header and the full chunk header.

use vstd::prelude::*;
use vstd::hash_map::HashMapWithView;
use crate::bytes::{
    be16, be16_bytes, be24, be24_bytes, le32, le32_bytes, lemma_be16_round_trip,
    lemma_be24_round_trip, lemma_le32_round_trip, push_be16, push_be24, push_le32, read_be16,
    read_be24, read_le32,
};

verus! {

/// Why a record could not be read from the front of a byte sequence.
#[derive(Clone, Copy, Debug, PartialEq, Eq, Structural)]
pub enum CodecError {
    /// The input ends before the record does; more bytes may complete it.
    ShortRead,
    /// A compressed chunk header (fmt 1, 2 or 3) arrived on a chunk stream
    /// with no earlier header to inherit from.
    NoPriorChunk,
    /// A field holds a value that the protocol reserves.
    Reserved,
    /// A chunk continues a message whose declared length is below the bytes
    /// already buffered for it.
    LengthMismatch,
}

/// A fixed-layout record with a byte encoding. Reading yields the record's view.
pub trait Serializable: Sized + View {
    /// Whether the record's fields can be encoded.
    spec fn writable(&self) -> bool;

    /// The bytes the record is encoded as.
    spec fn wire(&self) -> Seq<u8>;

    /// What reading a record from the front of `input` yields: the record
    /// and the number of bytes it took, or why it could not be read.
    spec fn read_spec(input: Seq<u8>) -> Result<(Self::V, usize), CodecError>;

    fn serialize(&self) -> (r: Vec<u8>)
        requires
            self.writable(),
        ensures
            r@ == self.wire(),
    ;

    fn deserialize(input: &[u8]) -> (r: Result<(Self, usize), CodecError>)
        ensures
            match r {
                Ok((v, n)) => Self::read_spec(input@) == Ok::<(Self::V, usize), CodecError>(
                    (v@, n),
                ),
                Err(e) => Self::read_spec(input@) == Err::<(Self::V, usize), CodecError>(e),
            },
    ;
}

/// The largest chunk stream id that a basic header can carry.
pub const MAX_CSID: u32 = 65599;

/// First byte, and up to two more, of every chunk: the header format and the
/// chunk stream id.
#[derive(Clone, Copy, Debug, PartialEq, Eq, Structural)]
pub struct ChunkBasicHeader {
    pub fmt: u8,
    pub csid: u32,
}

/// Number of bytes the basic header of chunk stream `csid` takes.
pub open spec fn basic_header_len(csid: nat) -> nat {
    if csid < 64 {
        1
    } else if csid < 320 {
        2
    } else {
        3
    }
}

impl View for ChunkBasicHeader {
    type V = ChunkBasicHeader;

    open spec fn view(&self) -> ChunkBasicHeader {
        *self
    }
}

impl Serializable for ChunkBasicHeader {
    open spec fn writable(&self) -> bool {
        self.fmt < 4 && 2 <= self.csid <= MAX_CSID
    }

    open spec fn wire(&self) -> Seq<u8> {
        if self.csid < 64 {
            seq![(self.fmt * 64 + self.csid) as u8]
        } else if self.csid < 320 {
            seq![(self.fmt * 64) as u8, (self.csid - 64) as u8]
        } else {
            seq![(self.fmt * 64 + 1) as u8] + be16_bytes((self.csid - 64) as nat)
        }
    }

    open spec fn read_spec(input: Seq<u8>) -> Result<(Self, usize), CodecError> {
        if input.len() == 0 {
            Err(CodecError::ShortRead)
        } else {
            let fmt = (input[0] / 64) as u8;
            let low = input[0] % 64;
            if low == 0 {
                if input.len() < 2 {
                    Err(CodecError::ShortRead)
                } else {
                    Ok((ChunkBasicHeader { fmt, csid: (input[1] + 64) as u32 }, 2))
                }
            } else if low == 1 {
                if input.len() < 3 {
                    Err(CodecError::ShortRead)
                } else {
                    Ok((ChunkBasicHeader { fmt, csid: (be16(input, 1) + 64) as u32 }, 3))
                }
            } else {
                Ok((ChunkBasicHeader { fmt, csid: low as u32 }, 1))
            }
        }
    }

    fn serialize(&self) -> (r: Vec<u8>) {
        let mut out: Vec<u8> = Vec::new();
        if self.csid < 64 {
            out.push(self.fmt * 64 + self.csid as u8);
        } else if self.csid < 320 {
            out.push(self.fmt * 64);
            out.push((self.csid - 64) as u8);
        } else {
            out.push(self.fmt * 64 + 1);
            push_be16(&mut out, (self.csid - 64) as u16);
        }
        assert(out@ =~= self.wire());
        out
    }

    fn deserialize(input: &[u8]) -> (r: Result<(Self, usize), CodecError>) {
        if input.len() == 0 {
            return Err(CodecError::ShortRead);
        }
        let fmt = input[0] / 64;
        let low = input[0] % 64;
        if low == 0 {
            if input.len() < 2 {
                Err(CodecError::ShortRead)
            } else {
                Ok((ChunkBasicHeader { fmt, csid: input[1] as u32 + 64 }, 2))
            }
        } else if low == 1 {
            if input.len() < 3 {
                Err(CodecError::ShortRead)
            } else {
                let w = read_be16(input, 1);
                Ok((ChunkBasicHeader { fmt, csid: w as u32 + 64 }, 3))
            }
        } else {
            Ok((ChunkBasicHeader { fmt, csid: low as u32 }, 1))
        }
    }
}

/// Writing a valid basic header and reading it back, with any bytes after it,
/// gives the same format and chunk stream id; the encoding takes one byte for
/// ids 2 to 63, two for 64 to 319 and three for 320 to 65599.
pub proof fn lemma_basic_header_round_trip(h: ChunkBasicHeader, rest: Seq<u8>)
    requires
        h.writable(),
    ensures
        h.wire().len() == basic_header_len(h.csid as nat),
        ChunkBasicHeader::read_spec(h.wire() + rest) == Ok::<(ChunkBasicHeader, usize), CodecError>(
            (h, basic_header_len(h.csid as nat) as usize),
        ),
{
    let input = h.wire() + rest;
    let fmt = h.fmt;
    let csid = h.csid;
    if csid < 64 {
        let b = (fmt * 64 + csid) as u8;
        assert(fmt < 4 && 2 <= csid < 64 ==> (fmt * 64 + csid) as u8 / 64 == fmt && (fmt * 64
            + csid) as u8 % 64 == csid) by (bit_vector);
        assert(input[0] == b);
    } else if csid < 320 {
        assert(fmt < 4 ==> ((fmt * 64) as u8 / 64 == fmt && (fmt * 64) as u8 % 64 == 0)) by (
        bit_vector);
        assert(input[0] == (fmt * 64) as u8);
        assert(input[1] == (csid - 64) as u8);
    } else {
        assert(fmt < 4 ==> ((fmt * 64 + 1) as u8 / 64 == fmt && (fmt * 64 + 1) as u8 % 64 == 1))
            by (bit_vector);
        let w = (csid - 64) as u16;
        lemma_be16_round_trip(w);
        assert(input[0] == (fmt * 64 + 1) as u8);
        assert(input[1] == be16_bytes(w as nat)[0]);
        assert(input[2] == be16_bytes(w as nat)[1]);
    }
}


/// A chunk's basic header together with the message header that applies to it,
/// after inheritance from the previous header on the same chunk stream.
#[derive(Clone, Copy, Debug, PartialEq, Eq, Structural)]
pub struct ChunkHeader {
    pub basic_header: ChunkBasicHeader,
    pub timestamp: u32,
    pub message_length: u32,
    pub message_type_id: u8,
    pub message_stream_id: u32,
}

/// Number of message-header bytes that follow the basic header for `fmt`.
pub open spec fn fmt_tail_len(fmt: u8) -> nat {
    if fmt == 0 {
        11
    } else if fmt == 1 {
        7
    } else if fmt == 2 {
        3
    } else {
        0
    }
}

/// `t + delta`, wrapping at 2^32 as RTMP timestamps do.
pub open spec fn add_timestamp(t: u32, delta: nat) -> u32 {
    ((t as nat + delta) % 0x1_0000_0000) as u32
}

/// Whether two headers carry the same message header fields.
pub open spec fn same_message_fields(a: ChunkHeader, b: ChunkHeader) -> bool {
    a.timestamp == b.timestamp && a.message_length == b.message_length && a.message_type_id
        == b.message_type_id && a.message_stream_id == b.message_stream_id
}

impl ChunkHeader {
    /// The bytes of the header for its format: all four fields for fmt 0; the
    /// timestamp, length and type for fmt 1; the timestamp for fmt 2; nothing
    /// after the basic header for fmt 3. For fmt 1 and 2 the timestamp field is
    /// the delta to write. The timestamp and length are written as their low
    /// 24 bits, the stream id little-endian.
    pub open spec fn wire(&self) -> Seq<u8> {
        self.basic_header.wire() + header_tail(*self)
    }

    /// What reading a chunk header from the front of `input` yields, given the
    /// last header seen on each chunk stream.
    pub open spec fn read_spec(input: Seq<u8>, last: Map<u32, ChunkHeader>) -> Result<
        (ChunkHeader, usize),
        CodecError,
    > {
        match ChunkBasicHeader::read_spec(input) {
            Err(e) => Err(e),
            Ok((bh, n)) => {
                let t = n as int;
                if bh.fmt != 0 && !last.contains_key(bh.csid) {
                    Err(CodecError::NoPriorChunk)
                } else if input.len() < n + fmt_tail_len(bh.fmt) {
                    Err(CodecError::ShortRead)
                } else {
                    let p = last[bh.csid];
                    let h = if bh.fmt == 0 {
                        ChunkHeader {
                            basic_header: bh,
                            timestamp: be24(input, t) as u32,
                            message_length: be24(input, t + 3) as u32,
                            message_type_id: input[t + 6],
                            message_stream_id: le32(input, t + 7) as u32,
                        }
                    } else if bh.fmt == 1 {
                        ChunkHeader {
                            basic_header: bh,
                            timestamp: add_timestamp(p.timestamp, be24(input, t)),
                            message_length: be24(input, t + 3) as u32,
                            message_type_id: input[t + 6],
                            message_stream_id: p.message_stream_id,
                        }
                    } else if bh.fmt == 2 {
                        ChunkHeader {
                            basic_header: bh,
                            timestamp: add_timestamp(p.timestamp, be24(input, t)),
                            ..p
                        }
                    } else {
                        ChunkHeader { basic_header: bh, ..p }
                    };
                    Ok((h, (n + fmt_tail_len(bh.fmt)) as usize))
                }
            },
        }
    }

    /// Writes the header in the layout of its format.
    pub fn serialize(&self) -> (r: Vec<u8>)
        requires
            self.basic_header.writable(),
        ensures
            r@ == self.wire(),
    {
        let mut out = self.basic_header.serialize();
        let fmt = self.basic_header.fmt;
        if fmt <= 2 {
            push_be24(&mut out, self.timestamp);
        }
        if fmt <= 1 {
            push_be24(&mut out, self.message_length);
            out.push(self.message_type_id);
        }
        if fmt == 0 {
            push_le32(&mut out, self.message_stream_id);
        }
        assert(out@ =~= self.wire());
        out
    }

    /// Reads a chunk header from the front of `input`. Formats 1 to 3 take the
    /// fields they leave out from `last`, the last header seen on the chunk
    /// stream; timestamps of fmt 1 and 2 are deltas added to it.
    pub fn deserialize(input: &[u8], last: &HashMapWithView<u32, ChunkHeader>) -> (r: Result<
        (ChunkHeader, usize),
        CodecError,
    >)
        ensures
            r == Self::read_spec(input@, last@),
    {
        let (bh, n) = match ChunkBasicHeader::deserialize(input) {
            Ok(v) => v,
            Err(e) => {
                return Err(e);
            },
        };
        let prior = last.get(&bh.csid);
        if bh.fmt != 0 && prior.is_none() {
            return Err(CodecError::NoPriorChunk);
        }
        let tail: usize = if bh.fmt == 0 {
            11
        } else if bh.fmt == 1 {
            7
        } else if bh.fmt == 2 {
            3
        } else {
            0
        };
        if input.len() - n < tail {
            return Err(CodecError::ShortRead);
        }
        let h = match prior {
            None => ChunkHeader {
                basic_header: bh,
                timestamp: read_be24(input, n),
                message_length: read_be24(input, n + 3),
                message_type_id: input[n + 6],
                message_stream_id: read_le32(input, n + 7),
            },
            Some(p) => {
                if bh.fmt == 0 {
                    ChunkHeader {
                        basic_header: bh,
                        timestamp: read_be24(input, n),
                        message_length: read_be24(input, n + 3),
                        message_type_id: input[n + 6],
                        message_stream_id: read_le32(input, n + 7),
                    }
                } else if bh.fmt == 1 {
                    let delta = read_be24(input, n);
                    ChunkHeader {
                        basic_header: bh,
                        timestamp: ((p.timestamp as u64 + delta as u64) % 0x1_0000_0000) as u32,
                        message_length: read_be24(input, n + 3),
                        message_type_id: input[n + 6],
                        message_stream_id: p.message_stream_id,
                    }
                } else if bh.fmt == 2 {
                    let delta = read_be24(input, n);
                    ChunkHeader {
                        basic_header: bh,
                        timestamp: ((p.timestamp as u64 + delta as u64) % 0x1_0000_0000) as u32,
                        message_length: p.message_length,
                        message_type_id: p.message_type_id,
                        message_stream_id: p.message_stream_id,
                    }
                } else {
                    ChunkHeader {
                        basic_header: bh,
                        timestamp: p.timestamp,
                        message_length: p.message_length,
                        message_type_id: p.message_type_id,
                        message_stream_id: p.message_stream_id,
                    }
                }
            },
        };
        Ok((h, n + tail))
    }
}

/// The message-header bytes of `h` that follow its basic header.
pub open spec fn header_tail(h: ChunkHeader) -> Seq<u8> {
    let ts = be24_bytes(h.timestamp as nat % 0x1000000);
    let len = be24_bytes(h.message_length as nat % 0x1000000);
    let fmt = h.basic_header.fmt;
    if fmt == 0 {
        ts + len + seq![h.message_type_id] + le32_bytes(h.message_stream_id as nat)
    } else if fmt == 1 {
        ts + len + seq![h.message_type_id]
    } else if fmt == 2 {
        ts
    } else {
        Seq::empty()
    }
}

/// Reading `h.wire()` then `rest` parses the basic header of `h` and finds the
/// tail bytes right after it.
proof fn lemma_header_layout(h: ChunkHeader, rest: Seq<u8>)
    requires
        h.basic_header.writable(),
    ensures
        ({
            let input = h.wire() + rest;
            let n = basic_header_len(h.basic_header.csid as nat) as int;
            &&& ChunkBasicHeader::read_spec(input) == Ok::<(ChunkBasicHeader, usize), CodecError>(
                (h.basic_header, n as usize),
            )
            &&& h.wire().len() == n + header_tail(h).len()
            &&& header_tail(h).len() == fmt_tail_len(h.basic_header.fmt)
            &&& forall|k: int| 0 <= k < header_tail(h).len() ==> input[n + k] == header_tail(h)[k]
        }),
{
    let bh = h.basic_header;
    let w = bh.wire();
    let tail = header_tail(h);
    let input = h.wire() + rest;
    let n = basic_header_len(bh.csid as nat) as int;
    assert(h.wire() == w + tail);
    lemma_basic_header_round_trip(bh, tail + rest);
    assert(input =~= w + (tail + rest));
    assert forall|k: int| 0 <= k < tail.len() implies input[n + k] == tail[k] by {
        assert((w + (tail + rest))[n + k] == (tail + rest)[k]);
    }
}

/// The three bytes at `n` read back as the 24-bit value they were written from.
proof fn lemma_be24_at(input: Seq<u8>, n: int, v: u32, bytes: Seq<u8>)
    requires
        v < 0x1000000,
        bytes == be24_bytes(v as nat % 0x1000000),
        0 <= n,
        n + 3 <= input.len(),
        input[n] == bytes[0],
        input[n + 1] == bytes[1],
        input[n + 2] == bytes[2],
    ensures
        be24(input, n) == v,
{
    lemma_be24_round_trip(v);
}

/// The four bytes at `n` read back as the stream id they were written from.
proof fn lemma_le32_at(input: Seq<u8>, n: int, v: u32)
    requires
        0 <= n,
        n + 4 <= input.len(),
        input[n] == le32_bytes(v as nat)[0],
        input[n + 1] == le32_bytes(v as nat)[1],
        input[n + 2] == le32_bytes(v as nat)[2],
        input[n + 3] == le32_bytes(v as nat)[3],
    ensures
        le32(input, n) == v,
{
    lemma_le32_round_trip(v);
}

/// The fields of `h` read back from the tail bytes of its format.
proof fn lemma_header_prefix(h: ChunkHeader, rest: Seq<u8>)
    requires
        h.basic_header.writable(),
        h.timestamp < 0x1000000,
        h.message_length < 0x1000000,
    ensures
        ({
            let input = h.wire() + rest;
            let n = basic_header_len(h.basic_header.csid as nat) as int;
            &&& ChunkBasicHeader::read_spec(input) == Ok::<(ChunkBasicHeader, usize), CodecError>(
                (h.basic_header, n as usize),
            )
            &&& input.len() >= n + fmt_tail_len(h.basic_header.fmt)
            &&& h.wire().len() == n + fmt_tail_len(h.basic_header.fmt)
            &&& h.basic_header.fmt <= 2 ==> be24(input, n) == h.timestamp
            &&& h.basic_header.fmt <= 1 ==> be24(input, n + 3) == h.message_length
            &&& h.basic_header.fmt <= 1 ==> input[n + 6] == h.message_type_id
            &&& h.basic_header.fmt == 0 ==> le32(input, n + 7) == h.message_stream_id
        }),
{
    lemma_header_layout(h, rest);
    let input = h.wire() + rest;
    let n = basic_header_len(h.basic_header.csid as nat) as int;
    let fmt = h.basic_header.fmt;
    let tail = header_tail(h);
    let ts = be24_bytes(h.timestamp as nat % 0x1000000);
    let len = be24_bytes(h.message_length as nat % 0x1000000);
    let sid = le32_bytes(h.message_stream_id as nat);
    if fmt <= 2 {
        assert(tail.subrange(0, 3) =~= ts);
        assert(input[n] == tail[0] && input[n + 1] == tail[1] && input[n + 2] == tail[2]);
        lemma_be24_at(input, n, h.timestamp, ts);
    }
    if fmt <= 1 {
        assert(tail.subrange(3, 6) =~= len);
        assert(tail[6] == h.message_type_id);
        assert(input[n + 3] == tail[3] && input[n + 4] == tail[4] && input[n + 5] == tail[5]
            && input[n + 6] == tail[6]);
        lemma_be24_at(input, n + 3, h.message_length, len);
    }
    if fmt == 0 {
        assert(tail.subrange(7, 11) =~= sid);
        assert(input[n + 7] == tail[7] && input[n + 8] == tail[8] && input[n + 9] == tail[9]
            && input[n + 10] == tail[10]);
        lemma_le32_at(input, n + 7, h.message_stream_id);
    }
}

/// A fmt-0 header whose timestamp and length fit in 24 bits reads back as
/// itself, whatever was seen before on its chunk stream.
pub proof fn lemma_full_header_round_trip(h: ChunkHeader, last: Map<u32, ChunkHeader>, rest: Seq<u8>)
    requires
        h.basic_header.writable(),
        h.basic_header.fmt == 0,
        h.timestamp < 0x1000000,
        h.message_length < 0x1000000,
    ensures
        ChunkHeader::read_spec(h.wire() + rest, last) == Ok::<(ChunkHeader, usize), CodecError>(
            (h, h.wire().len() as usize),
        ),
{
    lemma_header_prefix(h, rest);
}

/// Header inheritance on one chunk stream. With `prior`, read from a fmt-0
/// chunk, as the last header on the stream, a following header `h` written
/// in fmt 3 reads back with the prior's fields; in fmt 2 with delta `D` as
/// `(T + D, L, Y, M)`; in fmt 1 with `(D, L', Y')` as `(T + D, L', Y', M)`.
pub proof fn lemma_header_inheritance(
    prior: ChunkHeader,
    h: ChunkHeader,
    last: Map<u32, ChunkHeader>,
    rest: Seq<u8>,
)
    requires
        h.basic_header.writable(),
        h.basic_header.fmt != 0,
        h.timestamp < 0x1000000,
        h.message_length < 0x1000000,
        prior.timestamp < 0x1000000,
        last.contains_key(h.basic_header.csid),
        last[h.basic_header.csid] == prior,
    ensures
        ({
            let fmt = h.basic_header.fmt;
            match ChunkHeader::read_spec(h.wire() + rest, last) {
                Ok((r, n)) => {
                    &&& n == h.wire().len()
                    &&& r.basic_header == h.basic_header
                    &&& fmt == 3 ==> same_message_fields(r, prior)
                    &&& fmt == 2 ==> r.timestamp == prior.timestamp + h.timestamp
                        && r.message_length == prior.message_length && r.message_type_id
                        == prior.message_type_id && r.message_stream_id == prior.message_stream_id
                    &&& fmt == 1 ==> r.timestamp == prior.timestamp + h.timestamp
                        && r.message_length == h.message_length && r.message_type_id
                        == h.message_type_id && r.message_stream_id == prior.message_stream_id
                },
                Err(_) => false,
            }
        }),
{
    lemma_header_prefix(h, rest);
    assert((prior.timestamp as nat + h.timestamp as nat) % 0x1_0000_0000 == prior.timestamp as nat
        + h.timestamp as nat);
}

} // verus!
