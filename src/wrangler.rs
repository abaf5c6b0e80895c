//! The chunk reassembler: reads one chunk at a time, applies header
//! inheritance per chunk stream and gathers the payloads of messages that
//! span several chunks.

use vstd::prelude::*;
use vstd::hash_map::HashMapWithView;
use crate::bytes::{copy_range, push_all};
use crate::codec::{
    basic_header_len, lemma_full_header_round_trip, lemma_header_inheritance, same_message_fields,
    ChunkBasicHeader, ChunkHeader, CodecError, Serializable, MAX_CSID,
};
use crate::writer::{continuation_chunks, message_chunks, min_nat};

verus! {

broadcast use vstd::std_specs::hash::group_hash_axioms;

/// The chunk size in effect until the peer sets another.
pub const DEFAULT_CHUNK_SIZE: u32 = 128;

/// Per-connection reassembly state.
pub struct ChunkWrangler {
    /// Largest payload of one inbound chunk, as set by the peer.
    pub max_chunk_size: u32,
    last_headers: HashMapWithView<u32, ChunkHeader>,
    incomplete_chunks: HashMapWithView<u32, Vec<u8>>,
}

/// The state of a `ChunkWrangler`: the inbound chunk size, the last header
/// seen on each chunk stream, and the bytes gathered so far of the message in
/// progress on each chunk stream.
pub struct WranglerView {
    pub max_chunk_size: nat,
    pub last: Map<u32, ChunkHeader>,
    pub partial: Map<u32, Seq<u8>>,
}

impl View for ChunkWrangler {
    type V = WranglerView;

    closed spec fn view(&self) -> WranglerView {
        WranglerView {
            max_chunk_size: self.max_chunk_size as nat,
            last: self.last_headers@,
            partial: self.incomplete_chunks@.map_values(|v: Vec<u8>| v@),
        }
    }
}

/// What one successful chunk read gives: the chunk's header, the payload of a
/// message if this chunk completed one, and the number of input bytes taken.
pub struct ChunkRead {
    pub header: ChunkHeader,
    pub message: Option<Vec<u8>>,
    pub consumed: usize,
}

/// The bytes gathered so far on chunk stream `csid`.
pub open spec fn buffered(s: WranglerView, csid: u32) -> Seq<u8> {
    if s.partial.contains_key(csid) {
        s.partial[csid]
    } else {
        Seq::empty()
    }
}

/// Payload bytes the chunk with header `h` carries: the chunk size, or what
/// the message still lacks if that is less.
pub open spec fn chunk_payload_len(s: WranglerView, h: ChunkHeader) -> nat {
    let remaining = (h.message_length - buffered(s, h.basic_header.csid).len()) as nat;
    if s.max_chunk_size < remaining {
        s.max_chunk_size
    } else {
        remaining
    }
}

/// What reading one chunk from the front of `input` does: the new state, the
/// chunk's header, the completed message if any, and the bytes taken. The
/// state is unchanged on an error.
pub open spec fn read_chunk_spec(s: WranglerView, input: Seq<u8>) -> Result<
    (WranglerView, ChunkHeader, Option<Seq<u8>>, nat),
    CodecError,
> {
    match ChunkHeader::read_spec(input, s.last) {
        Err(e) => Err(e),
        Ok((h, n)) => {
            let csid = h.basic_header.csid;
            let before = buffered(s, csid);
            if h.message_length < before.len() {
                Err(CodecError::LengthMismatch)
            } else {
                let size = chunk_payload_len(s, h);
                if input.len() < n + size {
                    Err(CodecError::ShortRead)
                } else {
                    let bytes = input.subrange(n as int, n + size);
                    let last = s.last.insert(csid, h);
                    let gathered = before + bytes;
                    let end = (n + size) as nat;
                    if gathered.len() == h.message_length {
                        Ok(
                            (
                                WranglerView { last, partial: s.partial.remove(csid), ..s },
                                h,
                                Some(gathered),
                                end,
                            ),
                        )
                    } else {
                        Ok(
                            (
                                WranglerView { last, partial: s.partial.insert(csid, gathered), ..s },
                                h,
                                None,
                                end,
                            ),
                        )
                    }
                }
            }
        },
    }
}

impl ChunkWrangler {
    /// A reassembler with the default chunk size and no chunk streams seen.
    pub fn new() -> (r: ChunkWrangler)
        ensures
            r@.max_chunk_size == DEFAULT_CHUNK_SIZE,
            r@.last == Map::<u32, ChunkHeader>::empty(),
            r@.partial == Map::<u32, Seq<u8>>::empty(),
    {
        let r = ChunkWrangler {
            max_chunk_size: DEFAULT_CHUNK_SIZE,
            last_headers: HashMapWithView::new(),
            incomplete_chunks: HashMapWithView::new(),
        };
        assert(r@.partial =~= Map::<u32, Seq<u8>>::empty());
        r
    }

    /// The bytes gathered so far on chunk stream `csid`.
    pub fn buffered_len(&self, csid: u32) -> (r: usize)
        ensures
            r == buffered(self@, csid).len(),
    {
        match self.incomplete_chunks.get(&csid) {
            Some(v) => v.len(),
            None => 0,
        }
    }

    /// Sets the inbound chunk size; it applies from the next chunk on.
    pub fn set_max_chunk_size(&mut self, size: u32)
        ensures
            final(self)@ == (WranglerView { max_chunk_size: size as nat, ..old(self)@ }),
    {
        self.max_chunk_size = size;
    }

    /// Drops the partial message on chunk stream `csid`, if any.
    pub fn abort(&mut self, csid: u32)
        ensures
            final(self)@ == (WranglerView { partial: old(self)@.partial.remove(csid), ..old(self)@ }),
    {
        self.incomplete_chunks.remove(&csid);
        assert(self@.partial =~= old(self)@.partial.remove(csid));
    }

    /// Reads one chunk from the front of `input`. A message that fits in one
    /// chunk, with nothing buffered on its chunk stream, comes out at once; a
    /// longer one is gathered per chunk stream and comes out with the chunk
    /// that completes it. The header becomes the last one of its chunk stream.
    pub fn read_chunk(&mut self, input: &[u8]) -> (r: Result<ChunkRead, CodecError>)
        ensures
            match r {
                Ok(c) => read_chunk_spec(old(self)@, input@) == Ok::<
                    (WranglerView, ChunkHeader, Option<Seq<u8>>, nat),
                    CodecError,
                >(
                    (
                        final(self)@,
                        c.header,
                        match c.message {
                            Some(m) => Some(m@),
                            None => None,
                        },
                        c.consumed as nat,
                    ),
                ),
                Err(e) => read_chunk_spec(old(self)@, input@) == Err::<
                    (WranglerView, ChunkHeader, Option<Seq<u8>>, nat),
                    CodecError,
                >(e) && final(self)@ == old(self)@,
            },
    {
        let (header, n) = match ChunkHeader::deserialize(input, &self.last_headers) {
            Ok(v) => v,
            Err(e) => {
                return Err(e);
            },
        };
        let csid = header.basic_header.csid;
        let before = self.buffered_len(csid);
        if (header.message_length as usize) < before {
            return Err(CodecError::LengthMismatch);
        }
        let remaining = header.message_length as usize - before;
        let size: usize = if (self.max_chunk_size as usize) < remaining {
            self.max_chunk_size as usize
        } else {
            remaining
        };
        if input.len() - n < size {
            return Err(CodecError::ShortRead);
        }
        let bytes = copy_range(input, n, n + size);
        let ghost old_view = self@;
        self.last_headers.insert(csid, header);
        let mut gathered = match self.incomplete_chunks.remove(&csid) {
            Some(v) => v,
            None => Vec::new(),
        };
        assert(gathered@ == buffered(old_view, csid));
        push_all(&mut gathered, bytes.as_slice());
        let message = if gathered.len() == header.message_length as usize {
            Some(gathered)
        } else {
            self.incomplete_chunks.insert(csid, gathered);
            None
        };
        proof {
            let new_partial = self.incomplete_chunks@.map_values(|v: Vec<u8>| v@);
            match message {
                Some(_) => assert(new_partial =~= old_view.partial.remove(csid)),
                None => assert(new_partial =~= old_view.partial.insert(csid, buffered(old_view, csid) + bytes@)),
            }
        }
        Ok(ChunkRead { header, message, consumed: n + size })
    }
}

/// Chunk streams are independent: reading a chunk on one stream leaves the
/// last header and the gathered bytes of every other stream as they were, and
/// a message it completes is what its own stream had gathered followed by the
/// payload bytes of this chunk.
pub proof fn lemma_streams_independent(s: WranglerView, input: Seq<u8>, other: u32)
    ensures
        match read_chunk_spec(s, input) {
            Ok((s2, h, m, n)) => {
                &&& other != h.basic_header.csid ==> s2.last.contains_key(other)
                    == s.last.contains_key(other) && s2.last[other] == s.last[other] && buffered(
                    s2,
                    other,
                ) == buffered(s, other)
                &&& m matches Some(p) ==> p == buffered(s, h.basic_header.csid) + input.subrange(
                    n - chunk_payload_len(s, h),
                    n as int,
                )
            },
            Err(_) => true,
        },
{
}

/// Reads `count` chunks one after another from the front of `input`: the
/// state after them, the messages they completed in order, each with the
/// header of the chunk that completed it, and the bytes taken; none if one of
/// the reads fails.
pub open spec fn read_chunks(s: WranglerView, input: Seq<u8>, count: nat) -> Option<
    (WranglerView, Seq<(ChunkHeader, Seq<u8>)>, nat),
>
    decreases count,
{
    if count == 0 {
        Some((s, Seq::empty(), 0))
    } else {
        match read_chunk_spec(s, input) {
            Err(_) => None,
            Ok((s1, h, m, n)) => match read_chunks(
                s1,
                input.subrange(n as int, input.len() as int),
                (count - 1) as nat,
            ) {
                None => None,
                Some((s2, ms, n2)) => Some(
                    (
                        s2,
                        match m {
                            Some(p) => seq![(h, p)],
                            None => Seq::empty(),
                        } + ms,
                        n + n2,
                    ),
                ),
            },
        }
    }
}

/// Number of fmt-3 chunks that carry a message of `len` bytes from `pos` on
/// in chunks of `max` bytes.
pub open spec fn continuation_count(len: nat, pos: nat, max: nat) -> nat
    decreases len - pos,
{
    if max == 0 || pos >= len {
        0
    } else {
        1 + continuation_count(len, pos + min_nat(max, (len - pos) as nat), max)
    }
}

/// Number of chunks a message of `len` bytes takes in chunks of `max` bytes:
/// one per `max` bytes, and at least one.
pub open spec fn chunk_count(len: nat, max: nat) -> nat {
    1 + continuation_count(len, min_nat(max, len), max)
}

/// The continuation chunks of what remains after `pos` number `ceil((len -
/// pos) / max)`.
proof fn lemma_continuation_count(len: nat, pos: nat, max: nat)
    requires
        max >= 1,
        pos <= len,
    ensures
        continuation_count(len, pos, max) == ((len - pos) + max - 1) as nat / max,
    decreases len - pos,
{
    let d = (len - pos) as nat;
    if pos == len {
        assert((max - 1) as nat / max == 0) by (nonlinear_arith)
            requires
                max >= 1,
        ;
    } else if d <= max {
        assert(continuation_count(len, pos + d, max) == 0);
        assert((d + max - 1) as nat / max == 1) by (nonlinear_arith)
            requires
                max >= 1,
                1 <= d <= max,
        ;
    } else {
        lemma_continuation_count(len, pos + max, max);
        let e = (d - max) as nat;
        assert((d + max - 1) as nat / max == (e + max - 1) as nat / max + 1) by (nonlinear_arith)
            requires
                max >= 1,
                d == e + max,
        {
            vstd::arithmetic::div_mod::lemma_div_plus_one((e + max - 1) as int, max as int);
        }
    }
}

/// A message of `len` bytes takes `ceil(len / max)` chunks, and an empty
/// message one.
pub proof fn lemma_chunk_count(len: nat, max: nat)
    requires
        max >= 1,
    ensures
        chunk_count(len, max) == if len == 0 {
            1
        } else {
            (len + max - 1) as nat / max
        },
{
    let first = min_nat(max, len);
    lemma_continuation_count(len, first, max);
    if len == 0 {
        assert((max - 1) as nat / max == 0) by (nonlinear_arith)
            requires
                max >= 1,
        ;
    } else if len <= max {
        assert((max - 1) as nat / max == 0) by (nonlinear_arith)
            requires
                max >= 1,
        ;
        assert((len + max - 1) as nat / max == 1) by (nonlinear_arith)
            requires
                max >= 1,
                1 <= len <= max,
        ;
    } else {
        let e = (len - max) as nat;
        assert((len + max - 1) as nat / max == (e + max - 1) as nat / max + 1) by (nonlinear_arith)
            requires
                max >= 1,
                len == e + max,
        {
            vstd::arithmetic::div_mod::lemma_div_plus_one((e + max - 1) as int, max as int);
        }
    }
}

/// The state after reading the continuation chunk of `payload` at `pos`.
pub open spec fn after_continuation(s: WranglerView, csid: u32, payload: Seq<u8>, pos: nat) -> WranglerView {
    let end = pos + min_nat(s.max_chunk_size, (payload.len() - pos) as nat);
    let r = ChunkHeader { basic_header: ChunkBasicHeader { fmt: 3, csid }, ..s.last[csid] };
    let last = s.last.insert(csid, r);
    if end == payload.len() {
        WranglerView { last, partial: s.partial.remove(csid), ..s }
    } else {
        WranglerView { last, partial: s.partial.insert(csid, payload.subrange(0, end as int)), ..s }
    }
}

/// The header that a fmt-3 chunk on `csid` reads as after `prior`.
pub open spec fn continued(prior: ChunkHeader, csid: u32) -> ChunkHeader {
    ChunkHeader { basic_header: ChunkBasicHeader { fmt: 3, csid }, ..prior }
}

/// The one read of a continuation chunk, and where the input goes on.
#[verifier::rlimit(100)]
proof fn lemma_continuation_read(
    s: WranglerView,
    csid: u32,
    payload: Seq<u8>,
    pos: nat,
    rest: Seq<u8>,
)
    requires
        2 <= csid <= MAX_CSID,
        s.max_chunk_size >= 1,
        pos < payload.len() <= 0xff_ffff,
        s.last.contains_key(csid),
        s.last[csid].timestamp < 0x1000000,
        s.last[csid].message_length == payload.len(),
        buffered(s, csid) == payload.subrange(0, pos as int),
    ensures
        ({
            let max = s.max_chunk_size;
            let step = min_nat(max, (payload.len() - pos) as nat);
            let end = pos + step;
            let input = continuation_chunks(csid, payload, pos, max) + rest;
            let k = basic_header_len(csid as nat) + step;
            &&& read_chunk_spec(s, input) == Ok::<
                (WranglerView, ChunkHeader, Option<Seq<u8>>, nat),
                CodecError,
            >(
                (
                    after_continuation(s, csid, payload, pos),
                    continued(s.last[csid], csid),
                    if end == payload.len() {
                        Some(payload)
                    } else {
                        None
                    },
                    k,
                ),
            )
            &&& input.len() == k + continuation_chunks(csid, payload, end, max).len() + rest.len()
            &&& input.subrange(k as int, input.len() as int) == continuation_chunks(
                csid,
                payload,
                end,
                max,
            ) + rest
        }),
{
    let max = s.max_chunk_size;
    let len = payload.len();
    let step = min_nat(max, (len - pos) as nat);
    let end = pos + step;
    let bh = ChunkBasicHeader { fmt: 3, csid };
    let prior = s.last[csid];
    let cont_rest = continuation_chunks(csid, payload, end, max);
    let input = continuation_chunks(csid, payload, pos, max) + rest;
    let after = payload.subrange(pos as int, end as int) + cont_rest + rest;
    let h = ChunkHeader { basic_header: bh, ..prior };
    let n = basic_header_len(csid as nat);
    assert(ChunkHeader::read_spec(input, s.last) == Ok::<(ChunkHeader, usize), CodecError>(
        (h, n as usize),
    )) by {
        assert(input =~= bh.wire() + after);
        assert(h.wire() =~= bh.wire());
        lemma_header_inheritance(prior, h, s.last, after);
    }
    assert(input.len() == n + step + cont_rest.len() + rest.len()) by {
        assert(input =~= bh.wire() + after);
        lemma_header_inheritance(prior, h, s.last, after);
    }
    assert(chunk_payload_len(s, h) == step);
    assert(input.subrange(n as int, (n + step) as int) =~= payload.subrange(pos as int, end as int))
        by {
        assert(input =~= bh.wire() + after);
        lemma_header_inheritance(prior, h, s.last, after);
    }
    let gathered = payload.subrange(0, pos as int) + payload.subrange(pos as int, end as int);
    assert(gathered =~= payload.subrange(0, end as int));
    assert(input.subrange((n + step) as int, input.len() as int) =~= cont_rest + rest) by {
        assert(input =~= bh.wire() + after);
        lemma_header_inheritance(prior, h, s.last, after);
    }
    if end == len {
        assert(gathered =~= payload);
    }
    let m = if end == len {
        Some(payload)
    } else {
        None
    };
    assert(read_chunk_spec(s, input) == Ok::<
        (WranglerView, ChunkHeader, Option<Seq<u8>>, nat),
        CodecError,
    >((after_continuation(s, csid, payload, pos), h, m, (n + step) as nat)));
}


/// One fmt-3 chunk of a message whose first `pos` bytes its chunk stream has
/// gathered, read with the chunk size it was written with: it takes its basic
/// header and `min(K, N - pos)` payload bytes, reads as the last header of
/// the stream with fmt 3, and leaves the stream with the first `pos` plus
/// those bytes gathered; with the last chunk the message comes out and nothing
/// stays gathered.
pub proof fn lemma_continuation_step(
    s: WranglerView,
    csid: u32,
    payload: Seq<u8>,
    pos: nat,
    rest: Seq<u8>,
)
    requires
        2 <= csid <= MAX_CSID,
        s.max_chunk_size >= 1,
        pos < payload.len() <= 0xff_ffff,
        s.last.contains_key(csid),
        s.last[csid].timestamp < 0x1000000,
        s.last[csid].message_length == payload.len(),
        buffered(s, csid) == payload.subrange(0, pos as int),
    ensures
        ({
            let max = s.max_chunk_size;
            let end = pos + min_nat(max, (payload.len() - pos) as nat);
            let input = continuation_chunks(csid, payload, pos, max) + rest;
            match read_chunk_spec(s, input) {
                Ok((s1, h, m, k)) => {
                    &&& h == continued(s.last[csid], csid)
                    &&& s1 == after_continuation(s, csid, payload, pos)
                    &&& k == basic_header_len(csid as nat) + (end - pos)
                    &&& buffered(s1, csid) == if end == payload.len() {
                        Seq::<u8>::empty()
                    } else {
                        payload.subrange(0, end as int)
                    }
                    &&& m == if end == payload.len() {
                        Some(payload)
                    } else {
                        None
                    }
                    &&& k <= input.len()
                    &&& input.subrange(k as int, input.len() as int) == continuation_chunks(
                        csid,
                        payload,
                        end,
                        max,
                    ) + rest
                    &&& k + continuation_chunks(csid, payload, end, max).len()
                        == continuation_chunks(csid, payload, pos, max).len()
                },
                Err(_) => false,
            }
        }),
{
    lemma_continuation_read(s, csid, payload, pos, rest);
}

/// The continuation chunks of a message, read with the chunk size they were
/// written with, complete the message and nothing else; it comes out with
/// the header of its last chunk.
proof fn lemma_continuations(
    s: WranglerView,
    csid: u32,
    payload: Seq<u8>,
    pos: nat,
    rest: Seq<u8>,
)
    requires
        2 <= csid <= MAX_CSID,
        s.max_chunk_size >= 1,
        pos < payload.len() <= 0xff_ffff,
        s.last.contains_key(csid),
        s.last[csid].timestamp < 0x1000000,
        s.last[csid].message_length == payload.len(),
        buffered(s, csid) == payload.subrange(0, pos as int),
    ensures
        match read_chunks(
            s,
            continuation_chunks(csid, payload, pos, s.max_chunk_size) + rest,
            continuation_count(payload.len(), pos, s.max_chunk_size),
        ) {
            Some((s2, ms, n)) => ms == seq![(continued(s.last[csid], csid), payload)]
                && n == continuation_chunks(csid, payload, pos, s.max_chunk_size).len()
                && !s2.partial.contains_key(csid),
            None => false,
        },
    decreases payload.len() - pos,
{
    let max = s.max_chunk_size;
    let len = payload.len();
    let end = pos + min_nat(max, (len - pos) as nat);
    lemma_continuation_step(s, csid, payload, pos, rest);
    let s1 = after_continuation(s, csid, payload, pos);
    let r = continued(s.last[csid], csid);
    let cont_rest = continuation_chunks(csid, payload, end, max);
    if end == len {
        assert(continuation_count(len, end, max) == 0);
        assert(cont_rest =~= Seq::<u8>::empty());
        assert(read_chunks(s1, cont_rest + rest, 0) == Some(
            (s1, Seq::<(ChunkHeader, Seq<u8>)>::empty(), 0nat),
        ));
        assert(seq![(r, payload)] + Seq::<(ChunkHeader, Seq<u8>)>::empty() =~= seq![(r, payload)]);
    } else {
        assert(s1.last[csid] == r);
        assert(continued(r, csid) == r);
        lemma_continuations(s1, csid, payload, end, rest);
        assert(Seq::<(ChunkHeader, Seq<u8>)>::empty() + seq![(r, payload)] =~= seq![(r, payload)]);
    }
}

/// The fmt-0 chunk that opens a message, read with nothing gathered on its
/// chunk stream: it takes its header and `min(K, N)` payload bytes and reads
/// as `h`, which becomes the last header of the stream; the message comes out
/// at once when it fits in one chunk, and otherwise its first bytes are
/// gathered.
pub proof fn lemma_first_chunk(s: WranglerView, h: ChunkHeader, payload: Seq<u8>, rest: Seq<u8>)
    requires
        h.basic_header.writable(),
        h.basic_header.fmt == 0,
        h.timestamp < 0x1000000,
        h.message_length == payload.len(),
        payload.len() <= 0xff_ffff,
        s.max_chunk_size >= 1,
        !s.partial.contains_key(h.basic_header.csid),
    ensures
        ({
            let csid = h.basic_header.csid;
            let max = s.max_chunk_size;
            let first = min_nat(max, payload.len());
            let input = message_chunks(h, payload, max) + rest;
            match read_chunk_spec(s, input) {
                Ok((s1, r, m, k)) => {
                    &&& r == h
                    &&& k == h.wire().len() + first
                    &&& s1 == (WranglerView {
                        last: s.last.insert(csid, h),
                        partial: if first == payload.len() {
                            s.partial.remove(csid)
                        } else {
                            s.partial.insert(csid, payload.subrange(0, first as int))
                        },
                        ..s
                    })
                    &&& m == if first == payload.len() {
                        Some(payload)
                    } else {
                        None
                    }
                    &&& k <= input.len()
                    &&& input.subrange(k as int, input.len() as int) == continuation_chunks(
                        csid,
                        payload,
                        first,
                        max,
                    ) + rest
                    &&& k + continuation_chunks(csid, payload, first, max).len() == message_chunks(
                        h,
                        payload,
                        max,
                    ).len()
                },
                Err(_) => false,
            }
        }),
{
    let csid = h.basic_header.csid;
    let max = s.max_chunk_size;
    let len = payload.len();
    let first = min_nat(max, len);
    let cont = continuation_chunks(csid, payload, first, max);
    let input = message_chunks(h, payload, max) + rest;
    let after = payload.subrange(0, first as int) + cont + rest;
    assert(input =~= h.wire() + after);
    lemma_full_header_round_trip(h, s.last, after);
    let n = h.wire().len();
    assert(buffered(s, csid) =~= Seq::<u8>::empty());
    assert(chunk_payload_len(s, h) == first);
    assert(input.subrange(n as int, (n + first) as int) =~= payload.subrange(0, first as int));
    let gathered = Seq::<u8>::empty() + payload.subrange(0, first as int);
    assert(gathered =~= payload.subrange(0, first as int));
    assert(input.subrange((n + first) as int, input.len() as int) =~= cont + rest);
    if first == len {
        assert(gathered =~= payload);
    }
}

/// Reassembly: a message of `N` bytes opened by the fmt-0 header `h` and
/// carried on in fmt-3 chunks of the reader's chunk size `K`, `ceil(N / K)`
/// chunks in all (see `lemma_chunk_count`), reads back, whatever follows it,
/// as exactly one message: the payload bytes in order, under a header with
/// the length, type, stream id and timestamp of `h` on the same chunk stream.
/// Nothing stays gathered on the stream. The reader must have nothing gathered
/// on that stream before; it may have seen any earlier headers.
pub proof fn lemma_reassembly(s: WranglerView, h: ChunkHeader, payload: Seq<u8>, rest: Seq<u8>)
    requires
        h.basic_header.writable(),
        h.basic_header.fmt == 0,
        h.timestamp < 0x1000000,
        h.message_length == payload.len(),
        payload.len() <= 0xff_ffff,
        s.max_chunk_size >= 1,
        !s.partial.contains_key(h.basic_header.csid),
    ensures
        match read_chunks(
            s,
            message_chunks(h, payload, s.max_chunk_size) + rest,
            chunk_count(payload.len(), s.max_chunk_size),
        ) {
            Some((s2, ms, n)) => {
                &&& ms.len() == 1
                &&& ms[0].1 == payload
                &&& same_message_fields(ms[0].0, h)
                &&& ms[0].0.basic_header.csid == h.basic_header.csid
                &&& n == message_chunks(h, payload, s.max_chunk_size).len()
                &&& !s2.partial.contains_key(h.basic_header.csid)
            },
            None => false,
        },
{
    let csid = h.basic_header.csid;
    let max = s.max_chunk_size;
    let len = payload.len();
    let first = min_nat(max, len);
    let cont = continuation_chunks(csid, payload, first, max);
    let input = message_chunks(h, payload, max) + rest;
    lemma_first_chunk(s, h, payload, rest);
    if first == len {
        let s1 = WranglerView { last: s.last.insert(csid, h), partial: s.partial.remove(csid), ..s };
        assert(continuation_count(len, first, max) == 0);
        assert(cont =~= Seq::<u8>::empty());
        assert(read_chunks(s1, cont + rest, 0) == Some(
            (s1, Seq::<(ChunkHeader, Seq<u8>)>::empty(), 0nat),
        ));
        assert(seq![(h, payload)] + Seq::<(ChunkHeader, Seq<u8>)>::empty() =~= seq![(h, payload)]);
    } else {
        let s1 = WranglerView {
            last: s.last.insert(csid, h),
            partial: s.partial.insert(csid, payload.subrange(0, first as int)),
            ..s
        };
        assert(buffered(s1, csid) == payload.subrange(0, first as int));
        lemma_continuations(s1, csid, payload, first, rest);
        let r = continued(h, csid);
        assert(Seq::<(ChunkHeader, Seq<u8>)>::empty() + seq![(r, payload)] =~= seq![(r, payload)]);
    }
}

} // verus!
