//! RTMP ingest core: byte codecs for chunk headers, control messages and
//! handshake records, the per-connection chunk reassembler, the chunk writer,
//! the AMF0 command dispatcher and the connection state machine.

pub mod amf0;
pub mod bytes;
pub mod codec;
pub mod command;
pub mod connection;
pub mod control;
pub mod handshake;
pub mod rtsp;
pub mod wrangler;
pub mod writer;
