//! The per-connection state machine: handshake, then chunk reassembly and
//! dispatch of each completed message to the control or command handler.
//! It works on bytes the caller has received and returns the bytes to send.

use vstd::prelude::*;
use vstd::slice::slice_subrange;
use crate::bytes::{be32, push_all, read_be32};
use crate::codec::{ChunkHeader, CodecError, Serializable};
use crate::command::{
    command_spec, connect_result, connect_result_spec, create_stream_result,
    create_stream_result_spec, parse_command, publish_start, publish_start_spec, Command,
    CommandView, PlayMessage, PublishingType,
};
use crate::control::{SetChunkSize, SetPeerBandwidth, WindowAcknowledgementSize};
use crate::handshake::{
    handshake_reply, handshake_reply_spec, random_bytes, CS0, CS1, CS1View, HANDSHAKE_SIZE,
    RANDOM_SIZE,
};
use crate::wrangler::{read_chunk_spec, ChunkWrangler, WranglerView};
use crate::writer::{chunked, write_message, MAX_MESSAGE_LENGTH};

verus! {

/// Chunk stream of protocol control messages.
pub const CONTROL_CSID: u32 = 2;
/// Chunk stream of this server's command replies.
pub const COMMAND_CSID: u32 = 3;

pub const TYPE_SET_CHUNK_SIZE: u8 = 1;
pub const TYPE_ABORT: u8 = 2;
pub const TYPE_ACKNOWLEDGEMENT: u8 = 3;
pub const TYPE_WINDOW_ACK_SIZE: u8 = 5;
pub const TYPE_SET_PEER_BANDWIDTH: u8 = 6;
pub const TYPE_AUDIO: u8 = 8;
pub const TYPE_VIDEO: u8 = 9;
pub const TYPE_DATA: u8 = 18;
pub const TYPE_COMMAND: u8 = 20;

/// The acknowledgement window and peer bandwidth the server announces.
pub const SERVER_WINDOW: u32 = 5_000_000;
/// The chunk size the server switches its output to after connect.
pub const SERVER_CHUNK_SIZE: u32 = 5000;
/// Limit type "soft" of SetPeerBandwidth.
pub const LIMIT_SOFT: u8 = 1;

/// Where a connection stands.
#[derive(Clone, Copy, Debug, PartialEq, Eq, Structural)]
pub enum Phase {
    /// Waiting for C0 and C1.
    AwaitingHandshake,
    /// S0, S1 and S2 sent; waiting for C2.
    AwaitingC2,
    /// Exchanging chunks.
    Ready,
    /// Closed after an error; nothing more is read.
    Closed,
}

/// Why a connection ends.
#[derive(Clone, Copy, Debug, PartialEq, Eq, Structural)]
pub enum ConnectionError {
    /// The peer's bytes cannot be read as the protocol requires.
    Malformed(CodecError),
    /// The connection was closed before.
    Closed,
}

/// What a step did: the input bytes it took and the bytes to send. A step
/// that takes nothing waits for more input.
pub struct Progress {
    pub consumed: usize,
    pub output: Vec<u8>,
}

/// The state of one RTMP connection.
pub struct RtmpConnection {
    pub phase: Phase,
    pub multiplexer: ChunkWrangler,
    pub publishing_type: Option<PublishingType>,
    /// Largest payload of one outbound chunk.
    pub outbound_chunk_size: u32,
    /// The peer's count of bytes received, from its last acknowledgement.
    pub acknowledged: Option<u32>,
    /// The acknowledgement window the peer declared.
    pub window_ack_size: Option<u32>,
    /// The bandwidth limit the peer set.
    pub peer_bandwidth: Option<SetPeerBandwidth>,
    /// The stream the peer asked to play.
    pub play_request: Option<PlayMessage>,
}

/// The state of a connection as the contracts see it.
pub struct ConnectionView {
    pub phase: Phase,
    pub wrangler: WranglerView,
    pub publishing_type: Option<PublishingType>,
    pub outbound_chunk_size: u32,
    pub acknowledged: Option<u32>,
    pub window_ack_size: Option<u32>,
    pub peer_bandwidth: Option<SetPeerBandwidth>,
    /// The stream name and start of the last play request.
    pub play: Option<(Seq<char>, u64)>,
}

impl View for RtmpConnection {
    type V = ConnectionView;

    open spec fn view(&self) -> ConnectionView {
        ConnectionView {
            phase: self.phase,
            wrangler: self.multiplexer@,
            publishing_type: self.publishing_type,
            outbound_chunk_size: self.outbound_chunk_size,
            acknowledged: self.acknowledged,
            window_ack_size: self.window_ack_size,
            peer_bandwidth: self.peer_bandwidth,
            play: match self.play_request {
                Some(m) => Some((m.stream_name@, m.start)),
                None => None,
            },
        }
    }
}

/// One outbound message framed in chunks of `max` bytes; a payload too long
/// for the 24-bit length field is not sent.
pub open spec fn frame(csid: u32, type_id: u8, payload: Seq<u8>, max: u32) -> Seq<u8> {
    if payload.len() <= MAX_MESSAGE_LENGTH {
        chunked(csid, type_id, 0, payload, max as nat)
    } else {
        Seq::empty()
    }
}

/// The replies to connect, in order: the window size, the peer bandwidth and
/// the chunk size, framed with the chunk size before the change; then the
/// `_result`, framed with the new chunk size.
pub open spec fn connect_reply_spec(out_size: u32) -> Seq<u8> {
    frame(
        CONTROL_CSID,
        TYPE_WINDOW_ACK_SIZE,
        (WindowAcknowledgementSize { window_acknowledgement_size: SERVER_WINDOW }).wire(),
        out_size,
    ) + frame(
        CONTROL_CSID,
        TYPE_SET_PEER_BANDWIDTH,
        (SetPeerBandwidth { window_acknowledgement_size: SERVER_WINDOW, limit_type: LIMIT_SOFT }).wire(),
        out_size,
    ) + frame(
        CONTROL_CSID,
        TYPE_SET_CHUNK_SIZE,
        (SetChunkSize { chunk_size: SERVER_CHUNK_SIZE }).wire(),
        out_size,
    ) + frame(COMMAND_CSID, TYPE_COMMAND, connect_result_spec(), SERVER_CHUNK_SIZE)
}

/// What a command does to the connection, and the bytes sent in reply. A
/// command that cannot be parsed, or that this server does not handle, is
/// ignored.
pub open spec fn command_effect(s: ConnectionView, c: Option<CommandView>) -> (
    ConnectionView,
    Seq<u8>,
) {
    match c {
        Some(CommandView::Connect) => (
            ConnectionView { outbound_chunk_size: SERVER_CHUNK_SIZE, ..s },
            connect_reply_spec(s.outbound_chunk_size),
        ),
        Some(CommandView::CreateStream { transaction_id }) => (
            s,
            frame(
                COMMAND_CSID,
                TYPE_COMMAND,
                create_stream_result_spec(transaction_id),
                s.outbound_chunk_size,
            ),
        ),
        Some(CommandView::Publish { publishing_name, publishing_type }) => (
            ConnectionView { publishing_type, ..s },
            if publishing_type == Some(PublishingType::Live) {
                frame(COMMAND_CSID, TYPE_COMMAND, publish_start_spec(), s.outbound_chunk_size)
            } else {
                Seq::empty()
            },
        ),
        Some(CommandView::Play { stream_name, start }) => (
            ConnectionView { play: Some((stream_name, start)), ..s },
            Seq::empty(),
        ),
        _ => (s, Seq::empty()),
    }
}

/// What a protocol control message of type `t` with payload `p` does.
pub open spec fn control_effect(s: ConnectionView, t: u8, p: Seq<u8>) -> Result<
    ConnectionView,
    ConnectionError,
> {
    if t == TYPE_SET_CHUNK_SIZE {
        match SetChunkSize::read_spec(p) {
            Ok((m, _)) => Ok(
                ConnectionView {
                    wrangler: WranglerView {
                        max_chunk_size: if m.chunk_size == 0 {
                            1
                        } else {
                            m.chunk_size as nat
                        },
                        ..s.wrangler
                    },
                    ..s
                },
            ),
            Err(e) => Err(ConnectionError::Malformed(e)),
        }
    } else if t == TYPE_ABORT || t == TYPE_ACKNOWLEDGEMENT {
        if p.len() < 4 {
            Err(ConnectionError::Malformed(CodecError::ShortRead))
        } else if t == TYPE_ABORT {
            Ok(
                ConnectionView {
                    wrangler: WranglerView {
                        partial: s.wrangler.partial.remove(be32(p, 0) as u32),
                        ..s.wrangler
                    },
                    ..s
                },
            )
        } else {
            Ok(ConnectionView { acknowledged: Some(be32(p, 0) as u32), ..s })
        }
    } else if t == TYPE_WINDOW_ACK_SIZE {
        match WindowAcknowledgementSize::read_spec(p) {
            Ok((m, _)) => Ok(ConnectionView { window_ack_size: Some(m.window_acknowledgement_size), ..s }),
            Err(e) => Err(ConnectionError::Malformed(e)),
        }
    } else if t == TYPE_SET_PEER_BANDWIDTH {
        match SetPeerBandwidth::read_spec(p) {
            Ok((m, _)) => Ok(ConnectionView { peer_bandwidth: Some(m), ..s }),
            Err(e) => Err(ConnectionError::Malformed(e)),
        }
    } else {
        Ok(s)
    }
}

/// What a completed message does: commands (type 20) go to the command
/// handler, messages on stream 0 to the control handler; the rest (audio,
/// video, data and unknown types) changes nothing.
pub open spec fn dispatch_spec(s: ConnectionView, h: ChunkHeader, p: Seq<u8>) -> Result<
    (ConnectionView, Seq<u8>),
    ConnectionError,
> {
    if h.message_type_id == TYPE_COMMAND {
        Ok(command_effect(s, command_spec(p)))
    } else if h.message_stream_id == 0 {
        match control_effect(s, h.message_type_id, p) {
            Ok(s2) => Ok((s2, Seq::empty())),
            Err(e) => Err(e),
        }
    } else {
        Ok((s, Seq::empty()))
    }
}

/// One step in the Ready phase: read a chunk and dispatch the message it
/// completes. A chunk not yet wholly received takes nothing.
pub open spec fn chunk_step_spec(s: ConnectionView, input: Seq<u8>) -> Result<
    (ConnectionView, Seq<u8>, nat),
    ConnectionError,
> {
    match read_chunk_spec(s.wrangler, input) {
        Err(CodecError::ShortRead) => Ok((s, Seq::empty(), 0)),
        Err(e) => Err(ConnectionError::Malformed(e)),
        Ok((w, h, m, n)) => {
            let s1 = ConnectionView { wrangler: w, ..s };
            match m {
                None => Ok((s1, Seq::empty(), n)),
                Some(p) => match dispatch_spec(s1, h, p) {
                    Ok((s2, out)) => Ok((s2, out, n)),
                    Err(e) => Err(e),
                },
            }
        },
    }
}

/// One step of the handshake, with `s1_random` as the random part of S1.
/// C0 and C1 are answered with S0, S1 and S2 once all 1537 bytes are there;
/// C2 is taken without looking at its content.
pub open spec fn handshake_step_spec(s: ConnectionView, input: Seq<u8>, s1_random: Seq<u8>) -> (
    ConnectionView,
    Seq<u8>,
    nat,
) {
    if s.phase == Phase::AwaitingHandshake {
        if input.len() < 1 + HANDSHAKE_SIZE {
            (s, Seq::empty(), 0)
        } else {
            let c1 = CS1View {
                timestamp: be32(input, 1) as u32,
                zero: be32(input, 5) as u32,
                random_bytes: input.subrange(9, 1 + HANDSHAKE_SIZE as int),
            };
            (
                ConnectionView { phase: Phase::AwaitingC2, ..s },
                handshake_reply_spec(CS0 { version: input[0] }, c1, s1_random),
                (1 + HANDSHAKE_SIZE) as nat,
            )
        }
    } else if input.len() < HANDSHAKE_SIZE {
        (s, Seq::empty(), 0)
    } else {
        (ConnectionView { phase: Phase::Ready, ..s }, Seq::empty(), HANDSHAKE_SIZE as nat)
    }
}

/// One step of a connection in any phase, with `s1_random` as the random
/// part of S1 should the step answer C1.
pub open spec fn step_spec(s: ConnectionView, input: Seq<u8>, s1_random: Seq<u8>) -> Result<
    (ConnectionView, Seq<u8>, nat),
    ConnectionError,
> {
    if s.phase == Phase::Closed {
        Err(ConnectionError::Closed)
    } else if s.phase == Phase::Ready {
        chunk_step_spec(s, input)
    } else {
        Ok(handshake_step_spec(s, input, s1_random))
    }
}

/// A SetChunkSize that arrives between two chunks of a message affects only
/// the chunks read after it: the bytes gathered on every chunk stream and the
/// last headers stay as they were, and only the inbound chunk size changes,
/// to the value sent with bit 31 cleared (at least 1).
pub proof fn lemma_chunk_size_change_applies_forward(s: ConnectionView, p: Seq<u8>)
    requires
        p.len() >= 4,
    ensures
        match control_effect(s, TYPE_SET_CHUNK_SIZE, p) {
            Ok(s2) => {
                &&& s2.wrangler.partial == s.wrangler.partial
                &&& s2.wrangler.last == s.wrangler.last
                &&& s2.wrangler.max_chunk_size == if be32(p, 0) % 0x8000_0000 == 0 {
                    1
                } else {
                    be32(p, 0) % 0x8000_0000
                }
            },
            Err(_) => false,
        },
{
}

/// Messages are dispatched only when complete. A chunk that leaves its
/// message unfinished sends nothing and changes nothing but the reassembly
/// state; a chunk that completes one hands the dispatcher exactly the
/// payload gathered for it, once, with the header of that chunk.
pub proof fn lemma_dispatch_only_complete(s: ConnectionView, input: Seq<u8>)
    ensures
        match read_chunk_spec(s.wrangler, input) {
            Ok((w, h, m, n)) => chunk_step_spec(s, input) == match m {
                None => Ok::<(ConnectionView, Seq<u8>, nat), ConnectionError>(
                    (ConnectionView { wrangler: w, ..s }, Seq::empty(), n),
                ),
                Some(p) => match dispatch_spec(ConnectionView { wrangler: w, ..s }, h, p) {
                    Ok((s2, out)) => Ok((s2, out, n)),
                    Err(e) => Err(e),
                },
            },
            Err(_) => true,
        },
{
}

/// Appends one outbound message, framed as `frame` says.
fn send(out: &mut Vec<u8>, csid: u32, type_id: u8, payload: &[u8], max: u32)
    requires
        2 <= csid <= crate::codec::MAX_CSID,
        max >= 1,
    ensures
        final(out)@ == old(out)@ + frame(csid, type_id, payload@, max),
{
    if payload.len() <= MAX_MESSAGE_LENGTH {
        let bytes = write_message(csid, type_id, 0, payload, max);
        push_all(out, bytes.as_slice());
    } else {
        assert(out@ =~= out@ + Seq::<u8>::empty());
    }
}

impl RtmpConnection {
    /// A connection that awaits the handshake, with the default chunk sizes.
    pub fn new() -> (r: RtmpConnection)
        ensures
            r@.phase == Phase::AwaitingHandshake,
            r@.wrangler.max_chunk_size == crate::wrangler::DEFAULT_CHUNK_SIZE,
            r@.wrangler.last == Map::<u32, ChunkHeader>::empty(),
            r@.wrangler.partial == Map::<u32, Seq<u8>>::empty(),
            r@.outbound_chunk_size == crate::wrangler::DEFAULT_CHUNK_SIZE,
            r@.publishing_type is None,
            r@.acknowledged is None,
            r@.window_ack_size is None,
            r@.peer_bandwidth is None,
            r@.play is None,
            r.wf(),
    {
        RtmpConnection {
            phase: Phase::AwaitingHandshake,
            multiplexer: ChunkWrangler::new(),
            publishing_type: None,
            outbound_chunk_size: crate::wrangler::DEFAULT_CHUNK_SIZE,
            acknowledged: None,
            window_ack_size: None,
            peer_bandwidth: None,
            play_request: None,
        }
    }

    /// The outbound chunk size is never zero.
    pub open spec fn wf(&self) -> bool {
        self.outbound_chunk_size >= 1
    }

    /// Acts on a command message's payload and returns the reply bytes.
    pub fn handle_command_message(&mut self, payload: &[u8]) -> (r: Vec<u8>)
        requires
            old(self).wf(),
        ensures
            final(self).wf(),
            (final(self)@, r@) == command_effect(old(self)@, command_spec(payload@)),
    {
        let mut out: Vec<u8> = Vec::new();
        let cmd = parse_command(payload);
        match cmd {
            Some(Command::Connect) => {
                let was = WindowAcknowledgementSize { window_acknowledgement_size: SERVER_WINDOW };
                let spb = SetPeerBandwidth {
                    window_acknowledgement_size: SERVER_WINDOW,
                    limit_type: LIMIT_SOFT,
                };
                let scs = SetChunkSize { chunk_size: SERVER_CHUNK_SIZE };
                let size = self.outbound_chunk_size;
                send(&mut out, CONTROL_CSID, TYPE_WINDOW_ACK_SIZE, was.serialize().as_slice(), size);
                send(&mut out, CONTROL_CSID, TYPE_SET_PEER_BANDWIDTH, spb.serialize().as_slice(), size);
                send(&mut out, CONTROL_CSID, TYPE_SET_CHUNK_SIZE, scs.serialize().as_slice(), size);
                self.outbound_chunk_size = SERVER_CHUNK_SIZE;
                send(&mut out, COMMAND_CSID, TYPE_COMMAND, connect_result().as_slice(), SERVER_CHUNK_SIZE);
                assert(out@ =~= connect_reply_spec(size));
            },
            Some(Command::CreateStream { transaction_id }) => {
                let payload = create_stream_result(transaction_id);
                send(&mut out, COMMAND_CSID, TYPE_COMMAND, payload.as_slice(), self.outbound_chunk_size);
                assert(out@ =~= frame(COMMAND_CSID, TYPE_COMMAND, create_stream_result_spec(transaction_id), self.outbound_chunk_size));
            },
            Some(Command::Publish { publishing_name, publishing_type }) => {
                self.publishing_type = publishing_type;
                if publishing_type == Some(PublishingType::Live) {
                    send(&mut out, COMMAND_CSID, TYPE_COMMAND, publish_start().as_slice(), self.outbound_chunk_size);
                    assert(out@ =~= frame(COMMAND_CSID, TYPE_COMMAND, publish_start_spec(), self.outbound_chunk_size));
                }
            },
            Some(Command::Play(m)) => {
                self.play_request = Some(m);
            },
            _ => {},
        }
        out
    }

    /// Acts on a protocol control message: the header gives its type.
    pub fn handle_control_stream_msg(&mut self, header: &ChunkHeader, payload: &[u8]) -> (r: Result<
        (),
        ConnectionError,
    >)
        requires
            old(self).wf(),
        ensures
            final(self).wf(),
            match r {
                Ok(()) => control_effect(old(self)@, header.message_type_id, payload@) == Ok::<
                    ConnectionView,
                    ConnectionError,
                >(final(self)@),
                Err(e) => control_effect(old(self)@, header.message_type_id, payload@) == Err::<
                    ConnectionView,
                    ConnectionError,
                >(e) && final(self)@ == old(self)@,
            },
    {
        let message_type_id = header.message_type_id;
        if message_type_id == TYPE_SET_CHUNK_SIZE {
            match SetChunkSize::deserialize(payload) {
                Ok((m, _)) => {
                    let size = if m.chunk_size == 0 {
                        1
                    } else {
                        m.chunk_size
                    };
                    self.multiplexer.set_max_chunk_size(size);
                    Ok(())
                },
                Err(e) => Err(ConnectionError::Malformed(e)),
            }
        } else if message_type_id == TYPE_ABORT || message_type_id == TYPE_ACKNOWLEDGEMENT {
            if payload.len() < 4 {
                return Err(ConnectionError::Malformed(CodecError::ShortRead));
            }
            let v = read_be32(payload, 0);
            if message_type_id == TYPE_ABORT {
                self.multiplexer.abort(v);
            } else {
                self.acknowledged = Some(v);
            }
            Ok(())
        } else if message_type_id == TYPE_WINDOW_ACK_SIZE {
            match WindowAcknowledgementSize::deserialize(payload) {
                Ok((m, _)) => {
                    self.window_ack_size = Some(m.window_acknowledgement_size);
                    Ok(())
                },
                Err(e) => Err(ConnectionError::Malformed(e)),
            }
        } else if message_type_id == TYPE_SET_PEER_BANDWIDTH {
            match SetPeerBandwidth::deserialize(payload) {
                Ok((m, _)) => {
                    self.peer_bandwidth = Some(m);
                    Ok(())
                },
                Err(e) => Err(ConnectionError::Malformed(e)),
            }
        } else {
            Ok(())
        }
    }

    /// One handshake step, with `s1_random` as the random part of S1.
    pub fn handshake(&mut self, input: &[u8], s1_random: Vec<u8>) -> (r: Progress)
        requires
            old(self).phase == Phase::AwaitingHandshake || old(self).phase == Phase::AwaitingC2,
            old(self).phase == Phase::AwaitingHandshake && input@.len() >= 1 + HANDSHAKE_SIZE
                ==> s1_random@.len() == RANDOM_SIZE,
        ensures
            final(self).outbound_chunk_size == old(self).outbound_chunk_size,
            (final(self)@, r.output@, r.consumed as nat) == handshake_step_spec(
                old(self)@,
                input@,
                s1_random@,
            ),
    {
        if self.phase == Phase::AwaitingHandshake {
            if input.len() < 1 + HANDSHAKE_SIZE {
                return Progress { consumed: 0, output: Vec::new() };
            }
            let c0 = CS0 { version: input[0] };
            let rest = slice_subrange(input, 1, input.len());
            let c1 = match CS1::deserialize(rest) {
                Ok((c1, _)) => c1,
                Err(_) => {
                    return Progress { consumed: 0, output: Vec::new() };
                },
            };
            assert(rest@[0] == input@[1] && rest@[1] == input@[2] && rest@[2] == input@[3]
                && rest@[3] == input@[4]);
            assert(rest@[4] == input@[5] && rest@[5] == input@[6] && rest@[6] == input@[7]
                && rest@[7] == input@[8]);
            assert(c1@.random_bytes =~= input@.subrange(9, 1 + HANDSHAKE_SIZE as int));
            let output = handshake_reply(&c0, &c1, s1_random);
            self.phase = Phase::AwaitingC2;
            Progress { consumed: 1 + HANDSHAKE_SIZE, output }
        } else {
            if input.len() < HANDSHAKE_SIZE {
                return Progress { consumed: 0, output: Vec::new() };
            }
            self.phase = Phase::Ready;
            Progress { consumed: HANDSHAKE_SIZE, output: Vec::new() }
        }
    }

    /// One step in the Ready phase: reads a chunk and dispatches the message
    /// it completes. An error closes the connection.
    pub fn receive_chunk(&mut self, input: &[u8]) -> (r: Result<Progress, ConnectionError>)
        requires
            old(self).phase == Phase::Ready,
            old(self).wf(),
        ensures
            final(self).wf(),
            match r {
                Ok(p) => chunk_step_spec(old(self)@, input@) == Ok::<
                    (ConnectionView, Seq<u8>, nat),
                    ConnectionError,
                >((final(self)@, p.output@, p.consumed as nat)),
                Err(e) => chunk_step_spec(old(self)@, input@) == Err::<
                    (ConnectionView, Seq<u8>, nat),
                    ConnectionError,
                >(e) && final(self).phase == Phase::Closed,
            },
    {
        let c = match self.multiplexer.read_chunk(input) {
            Ok(c) => c,
            Err(CodecError::ShortRead) => {
                return Ok(Progress { consumed: 0, output: Vec::new() });
            },
            Err(e) => {
                self.phase = Phase::Closed;
                return Err(ConnectionError::Malformed(e));
            },
        };
        let payload = match c.message {
            Some(p) => p,
            None => {
                return Ok(Progress { consumed: c.consumed, output: Vec::new() });
            },
        };
        let header = c.header;
        if header.message_type_id == TYPE_COMMAND {
            let output = self.handle_command_message(payload.as_slice());
            Ok(Progress { consumed: c.consumed, output })
        } else if header.message_stream_id == 0 {
            match self.handle_control_stream_msg(&header, payload.as_slice()) {
                Ok(()) => Ok(Progress { consumed: c.consumed, output: Vec::new() }),
                Err(e) => {
                    self.phase = Phase::Closed;
                    Err(e)
                },
            }
        } else {
            Ok(Progress { consumed: c.consumed, output: Vec::new() })
        }
    }

    /// Takes what it can of `input`, the bytes received and not yet taken,
    /// and returns the bytes to send. Call it again with the rest while it
    /// takes something; when it takes nothing it waits for more bytes. When
    /// it answers C1, S1 carries fresh random bytes.
    pub fn process(&mut self, input: &[u8]) -> (r: Result<Progress, ConnectionError>)
        requires
            old(self).wf(),
        ensures
            final(self).wf(),
            match r {
                Ok(p) => exists|s1_random: Seq<u8>|
                    s1_random.len() == RANDOM_SIZE && #[trigger] step_spec(
                        old(self)@,
                        input@,
                        s1_random,
                    ) == Ok::<(ConnectionView, Seq<u8>, nat), ConnectionError>(
                        (final(self)@, p.output@, p.consumed as nat),
                    ),
                Err(e) => forall|s1_random: Seq<u8>|
                    #[trigger] step_spec(old(self)@, input@, s1_random) == Err::<
                        (ConnectionView, Seq<u8>, nat),
                        ConnectionError,
                    >(e) && final(self).phase == Phase::Closed,
            },
    {
        if self.phase == Phase::Closed {
            return Err(ConnectionError::Closed);
        }
        if self.phase == Phase::Ready {
            let r = self.receive_chunk(input);
            proof {
                let rnd = Seq::new(RANDOM_SIZE as nat, |i: int| 0u8);
                assert(step_spec(old(self)@, input@, rnd) == chunk_step_spec(old(self)@, input@));
            }
            return r;
        }
        let s1_random = random_bytes(RANDOM_SIZE);
        let ghost rnd = s1_random@;
        let p = self.handshake(input, s1_random);
        assert(step_spec(old(self)@, input@, rnd) == Ok::<
            (ConnectionView, Seq<u8>, nat),
            ConnectionError,
        >((self@, p.output@, p.consumed as nat)));
        Ok(p)
    }
}

} // verus!
