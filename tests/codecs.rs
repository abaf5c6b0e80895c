use rtmp::codec::{ChunkBasicHeader, ChunkHeader, CodecError, Serializable};
use rtmp::control::{SetChunkSize, SetPeerBandwidth, WindowAcknowledgementSize};
use rtmp::handshake::{CS0, CS1};
use rtmp::rtsp::RtspServer;
use rtmp::wrangler::ChunkWrangler;
use rtmp::writer::write_message;

#[test]
fn basic_header_round_trip() {
    for fmt in 0..4u8 {
        for (csid, len) in [(2u32, 1usize), (63, 1), (64, 2), (319, 2), (320, 3), (1000, 3), (65599, 3)] {
            let h = ChunkBasicHeader { fmt, csid };
            let bytes = h.serialize();
            assert_eq!(bytes.len(), len);
            let (back, n) = ChunkBasicHeader::deserialize(&bytes).unwrap();
            assert_eq!(back, h);
            assert_eq!(n, len);
        }
    }
}

#[test]
fn basic_header_bytes() {
    assert_eq!(ChunkBasicHeader { fmt: 0, csid: 3 }.serialize(), vec![0x03]);
    assert_eq!(ChunkBasicHeader { fmt: 3, csid: 3 }.serialize(), vec![0xc3]);
    assert_eq!(ChunkBasicHeader { fmt: 1, csid: 100 }.serialize(), vec![0x40, 36]);
    assert_eq!(ChunkBasicHeader { fmt: 2, csid: 65599 }.serialize(), vec![0x81, 0xff, 0xff]);
}

#[test]
fn basic_header_short_read() {
    assert_eq!(ChunkBasicHeader::deserialize(&[]), Err(CodecError::ShortRead));
    assert_eq!(ChunkBasicHeader::deserialize(&[0x00]), Err(CodecError::ShortRead));
    assert_eq!(ChunkBasicHeader::deserialize(&[0x01, 0x00]), Err(CodecError::ShortRead));
}

#[test]
fn message_header_inheritance() {
    let mut w = ChunkWrangler::new();
    w.max_chunk_size = 1000;
    let first = ChunkHeader {
        basic_header: ChunkBasicHeader { fmt: 0, csid: 7 },
        timestamp: 1000,
        message_length: 10,
        message_type_id: 9,
        message_stream_id: 0x0102_0304,
    };
    let mut input = first.serialize();
    assert_eq!(&input[8..12], &[0x04, 0x03, 0x02, 0x01]);
    input.extend_from_slice(&[0u8; 10]);
    let r = w.read_chunk(&input).unwrap();
    assert_eq!(r.header, first);
    assert_eq!(r.consumed, 22);

    let mut input = vec![0xc7];
    input.extend_from_slice(&[1u8; 10]);
    let r = w.read_chunk(&input).unwrap();
    assert_eq!((r.header.timestamp, r.header.message_length), (1000, 10));
    assert_eq!((r.header.message_type_id, r.header.message_stream_id), (9, 0x0102_0304));
    assert_eq!(r.header.basic_header, ChunkBasicHeader { fmt: 3, csid: 7 });

    let mut input = vec![0x87, 0x00, 0x00, 0x20];
    input.extend_from_slice(&[2u8; 10]);
    let r = w.read_chunk(&input).unwrap();
    assert_eq!((r.header.timestamp, r.header.message_length), (1032, 10));
    assert_eq!((r.header.message_type_id, r.header.message_stream_id), (9, 0x0102_0304));

    let mut input = vec![0x47, 0x00, 0x00, 0x08, 0x00, 0x00, 0x05, 0x08];
    input.extend_from_slice(&[3u8; 5]);
    let r = w.read_chunk(&input).unwrap();
    assert_eq!((r.header.timestamp, r.header.message_length), (1040, 5));
    assert_eq!((r.header.message_type_id, r.header.message_stream_id), (8, 0x0102_0304));
    assert_eq!(r.message, Some(vec![3u8; 5]));
}

#[test]
fn compressed_header_needs_prior() {
    let mut w = ChunkWrangler::new();
    assert!(matches!(w.read_chunk(&[0x43, 0, 0, 0, 0, 0, 1, 1, 0]), Err(CodecError::NoPriorChunk)));
    assert!(matches!(w.read_chunk(&[0xc3]), Err(CodecError::NoPriorChunk)));
}

#[test]
fn short_chunk_changes_nothing() {
    let mut w = ChunkWrangler::new();
    let r = w.read_chunk(&[0x03, 0, 0, 0, 0, 0, 10, 20, 0, 0, 0, 0, 1, 2]);
    assert!(matches!(r, Err(CodecError::ShortRead)));
    assert!(matches!(w.read_chunk(&[0xc3]), Err(CodecError::NoPriorChunk)));
}

#[test]
fn zero_length_message_is_emitted_at_once() {
    let mut w = ChunkWrangler::new();
    let r = w.read_chunk(&[0x03, 0, 0, 0, 0, 0, 0, 20, 0, 0, 0, 0]).unwrap();
    assert_eq!(r.message, Some(Vec::new()));
    assert_eq!(r.consumed, 12);
}

#[test]
fn reassembly_of_written_message() {
    let payload: Vec<u8> = (0..300u32).map(|i| (i * 7) as u8).collect();
    let bytes = write_message(3, 20, 0, &payload, 128);
    assert_eq!(bytes.len(), 12 + 128 + 1 + 128 + 1 + 44);
    assert_eq!(bytes[140], 0xc3);
    assert_eq!(bytes[269], 0xc3);
    let mut w = ChunkWrangler::new();
    let mut pos = 0;
    let mut messages = Vec::new();
    while pos < bytes.len() {
        let r = w.read_chunk(&bytes[pos..]).unwrap();
        pos += r.consumed;
        if let Some(m) = r.message {
            messages.push(m);
        }
    }
    assert_eq!(messages, vec![payload]);
}

#[test]
fn interleaved_csids() {
    let a: Vec<u8> = vec![0xaa; 200];
    let b: Vec<u8> = vec![0xbb; 150];
    let wa = write_message(3, 9, 1, &a, 128);
    let wb = write_message(4, 8, 1, &b, 128);
    let (a1, a2) = wa.split_at(12 + 128);
    let (b1, b2) = wb.split_at(12 + 128);
    let mut w = ChunkWrangler::new();
    for part in [a1, b1] {
        let r = w.read_chunk(part).unwrap();
        assert_eq!(r.consumed, part.len());
        assert!(r.message.is_none());
    }
    assert_eq!(w.buffered_len(3), 128);
    assert_eq!(w.buffered_len(4), 128);
    let r = w.read_chunk(a2).unwrap();
    assert_eq!(r.header.basic_header.csid, 3);
    assert_eq!(r.message, Some(a));
    let r = w.read_chunk(b2).unwrap();
    assert_eq!(r.header.basic_header.csid, 4);
    assert_eq!(r.message, Some(b));
}

#[test]
fn length_below_buffered_is_rejected() {
    let mut w = ChunkWrangler::new();
    let payload = [1u8; 200];
    let bytes = write_message(3, 9, 1, &payload, 128);
    w.read_chunk(&bytes[..140]).unwrap();
    let r = w.read_chunk(&[0x43, 0, 0, 0, 0, 0, 100, 9]);
    assert!(matches!(r, Err(CodecError::LengthMismatch)));
}

#[test]
fn set_chunk_size_mask() {
    let m = SetChunkSize { chunk_size: 0x8000_0001 };
    let bytes = m.serialize();
    assert_eq!(bytes, vec![0x00, 0x00, 0x00, 0x01]);
    assert_eq!(bytes[0] & 0x80, 0);
    let (back, n) = SetChunkSize::deserialize(&bytes).unwrap();
    assert_eq!(back.chunk_size, 1);
    assert_eq!(n, 4);
    let (high, _) = SetChunkSize::deserialize(&[0xff, 0xff, 0xff, 0xff]).unwrap();
    assert_eq!(high.chunk_size, 0x7fff_ffff);
}

#[test]
fn control_message_bytes() {
    let w = WindowAcknowledgementSize { window_acknowledgement_size: 5_000_000 };
    assert_eq!(w.serialize(), vec![0x00, 0x4c, 0x4b, 0x40]);
    let (back, _) = WindowAcknowledgementSize::deserialize(&[0x00, 0x4c, 0x4b, 0x40]).unwrap();
    assert_eq!(back, w);
    let b = SetPeerBandwidth { window_acknowledgement_size: 5_000_000, limit_type: 1 };
    assert_eq!(b.serialize(), vec![0x00, 0x4c, 0x4b, 0x40, 0x01]);
    let (back, n) = SetPeerBandwidth::deserialize(&[0x00, 0x4c, 0x4b, 0x40, 0x01]).unwrap();
    assert_eq!((back, n), (b, 5));
    assert_eq!(SetPeerBandwidth::deserialize(&[0, 0, 0, 0, 3]).err(), Some(CodecError::Reserved));
    assert_eq!(SetPeerBandwidth::deserialize(&[0, 0, 0, 0]).err(), Some(CodecError::ShortRead));
    assert_eq!(WindowAcknowledgementSize::deserialize(&[0, 0]).err(), Some(CodecError::ShortRead));
}

#[test]
fn handshake_record_round_trip() {
    let c1 = CS1 { timestamp: 0x0102_0304, zero: 0, random_bytes: vec![9u8; 1528] };
    let bytes = c1.serialize();
    assert_eq!(bytes.len(), 1536);
    assert_eq!(&bytes[..8], &[1, 2, 3, 4, 0, 0, 0, 0]);
    let (back, n) = CS1::deserialize(&bytes).unwrap();
    assert_eq!(n, 1536);
    assert_eq!(back.timestamp, 0x0102_0304);
    assert_eq!(back.random_bytes, vec![9u8; 1528]);
    assert!(CS1::deserialize(&bytes[..1535]).is_err());
    assert_eq!(CS0 { version: 3 }.serialize(), vec![3]);
    assert_eq!(CS0::deserialize(&[3]).unwrap().0, CS0 { version: 3 });
}

#[test]
fn handshake_reply_layout() {
    let c1 = CS1 { timestamp: 7, zero: 0, random_bytes: vec![5u8; 1528] };
    let out = rtmp::handshake::handshake_reply(&CS0 { version: 3 }, &c1, vec![1u8; 1528]);
    assert_eq!(out.len(), 3073);
    assert_eq!(&out[..9], &[3, 0, 0, 0, 1, 0, 0, 0, 0]);
    assert_eq!(&out[9..1537], &[1u8; 1528][..]);
    assert_eq!(&out[1537..1545], &[0, 0, 0, 7, 0, 0, 0, 0]);
    assert_eq!(&out[1545..], &[5u8; 1528][..]);
}

#[test]
fn random_bytes_have_requested_length() {
    assert_eq!(rtmp::handshake::random_bytes(1528).len(), 1528);
}

#[test]
fn writer_single_chunk() {
    let out = write_message(2, 1, 0, &[0, 0, 0x13, 0x88], 128);
    assert_eq!(out, vec![0x02, 0, 0, 0, 0, 0, 4, 1, 0, 0, 0, 0, 0, 0, 0x13, 0x88]);
}

#[test]
fn writer_wide_csid() {
    let out = write_message(400, 20, 1, &[1, 2, 3], 2);
    assert_eq!(&out[..3], &[0x01, 0x01, 0x50]);
    assert_eq!(&out[3..14], &[0, 0, 0, 0, 0, 3, 20, 1, 0, 0, 0]);
    assert_eq!(&out[14..], &[1, 2, 0xc1, 0x01, 0x50, 3]);
}

#[test]
fn rtsp_server_new() {
    let _server = RtspServer::new();
}
