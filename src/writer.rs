//! The chunk writer: frames an outbound message as a fmt-0 chunk followed by
//! fmt-3 chunks on the same chunk stream.

use vstd::prelude::*;
use crate::bytes::push_all;
use crate::codec::{ChunkBasicHeader, ChunkHeader, Serializable, MAX_CSID};

verus! {

/// The largest message length a chunk header can state.
pub const MAX_MESSAGE_LENGTH: usize = 0xff_ffff;

/// The fmt-0 header that opens an outbound message.
pub open spec fn first_header(csid: u32, type_id: u8, msid: u32, length: nat) -> ChunkHeader {
    ChunkHeader {
        basic_header: ChunkBasicHeader { fmt: 0, csid },
        timestamp: 0,
        message_length: length as u32,
        message_type_id: type_id,
        message_stream_id: msid,
    }
}

/// `a`, or `b` if it is smaller.
pub open spec fn min_nat(a: nat, b: nat) -> nat {
    if a < b {
        a
    } else {
        b
    }
}

/// The fmt-3 chunks that carry `payload` from `pos` on, `max` bytes each
/// (the last may hold fewer).
pub open spec fn continuation_chunks(csid: u32, payload: Seq<u8>, pos: nat, max: nat) -> Seq<u8>
    decreases payload.len() - pos,
{
    if max == 0 || pos >= payload.len() {
        Seq::empty()
    } else {
        let end = pos + min_nat(max, (payload.len() - pos) as nat);
        ChunkBasicHeader { fmt: 3, csid }.wire() + payload.subrange(pos as int, end as int)
            + continuation_chunks(csid, payload, end, max)
    }
}

/// The chunks of one message opened by the fmt-0 header `h`: `h` with up to
/// `max` payload bytes, then fmt-3 chunks on the same chunk stream with up to
/// `max` bytes each.
pub open spec fn message_chunks(h: ChunkHeader, payload: Seq<u8>, max: nat) -> Seq<u8> {
    let first = min_nat(max, payload.len());
    h.wire() + payload.subrange(0, first as int) + continuation_chunks(
        h.basic_header.csid,
        payload,
        first,
        max,
    )
}

/// The chunks of one outbound message: a fmt-0 chunk with the full header
/// (timestamp 0) and up to `max` payload bytes, then fmt-3 chunks on the same
/// chunk stream with up to `max` bytes each.
pub open spec fn chunked(csid: u32, type_id: u8, msid: u32, payload: Seq<u8>, max: nat) -> Seq<u8> {
    message_chunks(first_header(csid, type_id, msid, payload.len()), payload, max)
}

/// Frames `payload` as one message of type `type_id` on message stream `msid`,
/// in chunks of at most `max_chunk_size` payload bytes on chunk stream `csid`.
pub fn write_message(csid: u32, type_id: u8, msid: u32, payload: &[u8], max_chunk_size: u32) -> (r:
    Vec<u8>)
    requires
        2 <= csid <= MAX_CSID,
        payload@.len() <= MAX_MESSAGE_LENGTH,
        max_chunk_size >= 1,
    ensures
        r@ == chunked(csid, type_id, msid, payload@, max_chunk_size as nat),
{
    let header = ChunkHeader {
        basic_header: ChunkBasicHeader { fmt: 0, csid },
        timestamp: 0,
        message_length: payload.len() as u32,
        message_type_id: type_id,
        message_stream_id: msid,
    };
    let mut out = header.serialize();
    let max = max_chunk_size as usize;
    let len = payload.len();
    let mut pos: usize = if max < len {
        max
    } else {
        len
    };
    let mut i: usize = 0;
    while i < pos
        invariant
            i <= pos <= len == payload@.len(),
            out@ == header.wire() + payload@.subrange(0, i as int),
        decreases pos - i,
    {
        out.push(payload[i]);
        i = i + 1;
        assert(out@ =~= header.wire() + payload@.subrange(0, i as int));
    }
    let ghost prefix = out@;
    assert(prefix + continuation_chunks(csid, payload@, pos as nat, max as nat) == chunked(
        csid,
        type_id,
        msid,
        payload@,
        max as nat,
    ));
    let cont = ChunkBasicHeader { fmt: 3, csid };
    let cont_bytes = cont.serialize();
    while pos < len
        invariant
            pos <= len == payload@.len(),
            max >= 1,
            cont_bytes@ == cont.wire(),
            cont == (ChunkBasicHeader { fmt: 3, csid }),
            out@ + continuation_chunks(csid, payload@, pos as nat, max as nat) == chunked(
                csid,
                type_id,
                msid,
                payload@,
                max as nat,
            ),
        decreases len - pos,
    {
        let end = if max < len - pos {
            pos + max
        } else {
            len
        };
        let ghost before = out@;
        push_all(&mut out, cont_bytes.as_slice());
        let mut j: usize = pos;
        while j < end
            invariant
                pos <= j <= end <= len == payload@.len(),
                out@ == before + cont_bytes@ + payload@.subrange(pos as int, j as int),
            decreases end - j,
        {
            out.push(payload[j]);
            j = j + 1;
            assert(out@ =~= before + cont_bytes@ + payload@.subrange(pos as int, j as int));
        }
        assert(continuation_chunks(csid, payload@, pos as nat, max as nat) == cont.wire()
            + payload@.subrange(pos as int, end as int) + continuation_chunks(
            csid,
            payload@,
            end as nat,
            max as nat,
        ));
        assert(out@ + continuation_chunks(csid, payload@, end as nat, max as nat) =~= before
            + continuation_chunks(csid, payload@, pos as nat, max as nat));
        pos = end;
    }
    assert(continuation_chunks(csid, payload@, pos as nat, max as nat) == Seq::<u8>::empty());
    assert(out@ =~= out@ + Seq::<u8>::empty());
    out
}

} // verus!
