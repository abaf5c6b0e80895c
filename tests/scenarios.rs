use rtmp::codec::CodecError;
use rtmp::command::PublishingType;
use rtmp::connection::{ConnectionError, Phase, RtmpConnection};

fn amf_string(s: &str) -> Vec<u8> {
    let mut v = vec![0x02, (s.len() >> 8) as u8, s.len() as u8];
    v.extend_from_slice(s.as_bytes());
    v
}

fn amf_number(n: f64) -> Vec<u8> {
    let mut v = vec![0x00];
    v.extend_from_slice(&n.to_bits().to_be_bytes());
    v
}

fn fmt0_chunk(csid: u8, type_id: u8, msid: u32, payload: &[u8]) -> Vec<u8> {
    let len = payload.len() as u32;
    let mut v = vec![csid, 0, 0, 0, (len >> 16) as u8, (len >> 8) as u8, len as u8, type_id];
    v.extend_from_slice(&msid.to_le_bytes());
    v.extend_from_slice(payload);
    v
}

fn c0_c1() -> Vec<u8> {
    let mut v = vec![0x03, 0, 0, 0, 1, 0, 0, 0, 0];
    v.extend_from_slice(&[0u8; 1528]);
    v
}

fn ready_connection() -> RtmpConnection {
    let mut conn = RtmpConnection::new();
    let p = conn.process(&c0_c1()).unwrap();
    assert_eq!(p.consumed, 1537);
    let p = conn.process(&[0u8; 1536]).unwrap();
    assert_eq!(p.consumed, 1536);
    assert_eq!(conn.phase, Phase::Ready);
    conn
}

/// Splits the server's output into (csid, type, msid, payload) messages,
/// reading fmt-0 chunks followed by fmt-3 continuations of `max` bytes.
fn split_messages(out: &[u8], first_max: usize) -> Vec<(u8, u8, u32, Vec<u8>)> {
    let mut msgs = Vec::new();
    let mut i = 0;
    let mut max = first_max;
    while i < out.len() {
        assert_eq!(out[i] >> 6, 0);
        let csid = out[i] & 0x3f;
        let len = ((out[i + 4] as usize) << 16) | ((out[i + 5] as usize) << 8) | out[i + 6] as usize;
        let type_id = out[i + 7];
        let msid = u32::from_le_bytes([out[i + 8], out[i + 9], out[i + 10], out[i + 11]]);
        i += 12;
        let mut payload = Vec::new();
        loop {
            let take = std::cmp::min(max, len - payload.len());
            payload.extend_from_slice(&out[i..i + take]);
            i += take;
            if payload.len() == len {
                break;
            }
            assert_eq!(out[i], 0xc0 | csid);
            i += 1;
        }
        if type_id == 1 {
            max = u32::from_be_bytes([payload[0], payload[1], payload[2], payload[3]]) as usize;
        }
        msgs.push((csid, type_id, msid, payload));
    }
    msgs
}

fn contains(hay: &[u8], needle: &[u8]) -> bool {
    hay.windows(needle.len()).any(|w| w == needle)
}

#[test]
fn handshake_accept() {
    let mut conn = RtmpConnection::new();
    assert_eq!(conn.phase, Phase::AwaitingHandshake);
    let p = conn.process(&c0_c1()).unwrap();
    assert_eq!(p.consumed, 1537);
    assert_eq!(p.output.len(), 1 + 1536 + 1536);
    assert_eq!(p.output[0], 0x03);
    assert_eq!(&p.output[1..9], &[0, 0, 0, 1, 0, 0, 0, 0]);
    assert_eq!(&p.output[1537..1545], &[0, 0, 0, 1, 0, 0, 0, 0]);
    assert_eq!(&p.output[1545..], &[0u8; 1528][..]);
    assert_eq!(conn.phase, Phase::AwaitingC2);
    let p = conn.process(&[0u8; 1536]).unwrap();
    assert_eq!(p.consumed, 1536);
    assert!(p.output.is_empty());
    assert_eq!(conn.phase, Phase::Ready);
}

#[test]
fn handshake_waits_for_whole_c1() {
    let mut conn = RtmpConnection::new();
    let input = c0_c1();
    let p = conn.process(&input[..1000]).unwrap();
    assert_eq!(p.consumed, 0);
    assert!(p.output.is_empty());
    assert_eq!(conn.phase, Phase::AwaitingHandshake);
}

#[test]
fn handshake_echoes_client_random_bytes() {
    let mut conn = RtmpConnection::new();
    let mut input = vec![0x03, 0x12, 0x34, 0x56, 0x78, 0, 0, 0, 0];
    input.extend((0..1528).map(|i| (i % 251) as u8));
    let p = conn.process(&input).unwrap();
    assert_eq!(&p.output[1537..1541], &[0x12, 0x34, 0x56, 0x78]);
    assert_eq!(&p.output[1541..1545], &[0, 0, 0, 0]);
    assert_eq!(&p.output[1545..], &input[9..]);
}

#[test]
fn set_chunk_size_applied() {
    let mut conn = ready_connection();
    let input = [
        0x02, 0x00, 0x00, 0x00, 0x00, 0x00, 0x04, 0x01, 0x00, 0x00, 0x00, 0x00, 0x00, 0x00, 0x13,
        0x88,
    ];
    let p = conn.process(&input).unwrap();
    assert_eq!(p.consumed, 16);
    assert!(p.output.is_empty());
    assert_eq!(conn.multiplexer.max_chunk_size, 5000);
}

#[test]
fn set_chunk_size_zero_is_clamped() {
    let mut conn = ready_connection();
    let input = fmt0_chunk(2, 1, 0, &[0, 0, 0, 0]);
    conn.process(&input).unwrap();
    assert_eq!(conn.multiplexer.max_chunk_size, 1);
}

#[test]
fn connect_response() {
    let mut conn = ready_connection();
    let mut payload = amf_string("connect");
    payload.extend(amf_number(1.0));
    payload.push(0x03);
    payload.extend_from_slice(&[0x00, 0x03]);
    payload.extend_from_slice(b"app");
    payload.extend(amf_string("live"));
    payload.extend_from_slice(&[0x00, 0x00, 0x09]);
    let input = fmt0_chunk(3, 20, 0, &payload);
    let p = conn.process(&input).unwrap();
    assert_eq!(p.consumed, input.len());
    let msgs = split_messages(&p.output, 128);
    assert_eq!(msgs.len(), 4);
    assert_eq!(msgs[0], (2, 5, 0, vec![0x00, 0x4c, 0x4b, 0x40]));
    assert_eq!(msgs[1], (2, 6, 0, vec![0x00, 0x4c, 0x4b, 0x40, 0x01]));
    assert_eq!(msgs[2], (2, 1, 0, vec![0x00, 0x00, 0x13, 0x88]));
    let (csid, type_id, msid, result) = &msgs[3];
    assert_eq!((*csid, *type_id, *msid), (3, 20, 0));
    let mut head = amf_string("_result");
    head.extend(amf_number(1.0));
    assert_eq!(&result[..head.len()], &head[..]);
    assert_eq!(result[head.len()], 0x03);
    assert!(contains(result, &amf_string("FMS/3,0,1,123")));
    assert!(contains(result, &amf_string("NetConnection.Connect.Success")));
    assert_eq!(&result[result.len() - 3..], &[0x00, 0x00, 0x09]);
    assert_eq!(conn.outbound_chunk_size, 5000);
}

#[test]
fn connect_result_bytes() {
    let mut expected = amf_string("_result");
    expected.extend(amf_number(1.0));
    expected.push(0x03);
    for (k, v) in [
        ("fmsVer", amf_string("FMS/3,0,1,123")),
        ("capabilities", amf_number(31.0)),
        ("mode", amf_string("live")),
        ("objectEncoding", amf_number(0.0)),
    ] {
        expected.extend_from_slice(&[0, k.len() as u8]);
        expected.extend_from_slice(k.as_bytes());
        expected.extend(v);
    }
    expected.extend_from_slice(&[0, 0, 9, 3]);
    for (k, v) in [
        ("level", amf_string("status")),
        ("code", amf_string("NetConnection.Connect.Success")),
        ("description", amf_string("Connection succeeded.")),
        ("objectEncoding", amf_number(0.0)),
    ] {
        expected.extend_from_slice(&[0, k.len() as u8]);
        expected.extend_from_slice(k.as_bytes());
        expected.extend(v);
    }
    expected.extend_from_slice(&[0, 0, 9]);
    assert_eq!(rtmp::command::connect_result(), expected);
}

#[test]
fn publish_live() {
    let mut conn = ready_connection();
    let mut payload = amf_string("publish");
    payload.extend(amf_number(4.0));
    payload.push(0x05);
    payload.extend(amf_string("streamA"));
    payload.extend(amf_string("live"));
    let input = fmt0_chunk(3, 20, 0, &payload);
    let p = conn.process(&input).unwrap();
    assert_eq!(conn.publishing_type, Some(PublishingType::Live));
    let msgs = split_messages(&p.output, 128);
    assert_eq!(msgs.len(), 1);
    let mut expected = amf_string("onStatus");
    expected.extend(amf_number(0.0));
    expected.extend_from_slice(&[0x03, 0x00, 0x00, 0x09, 0x03]);
    for (k, v) in [
        ("code", "NetStream.Publish.Start"),
        ("level", "status"),
        ("description", "Started publishing stream."),
    ] {
        expected.extend_from_slice(&[0, k.len() as u8]);
        expected.extend_from_slice(k.as_bytes());
        expected.extend(amf_string(v));
    }
    expected.extend_from_slice(&[0x00, 0x00, 0x09]);
    assert_eq!(msgs[0], (3, 20, 0, expected));
}

#[test]
fn publish_type_is_case_insensitive() {
    let mut conn = ready_connection();
    let mut payload = amf_string("publish");
    payload.extend(amf_number(4.0));
    payload.push(0x05);
    payload.extend(amf_string("streamA"));
    payload.extend(amf_string("LIVE"));
    let p = conn.process(&fmt0_chunk(3, 20, 0, &payload)).unwrap();
    assert_eq!(conn.publishing_type, Some(PublishingType::Live));
    assert!(!p.output.is_empty());
}

#[test]
fn publish_other_type_sends_nothing() {
    let mut conn = ready_connection();
    let mut payload = amf_string("publish");
    payload.extend(amf_number(4.0));
    payload.push(0x05);
    payload.extend(amf_string("streamA"));
    payload.extend(amf_string("record"));
    let p = conn.process(&fmt0_chunk(3, 20, 0, &payload)).unwrap();
    assert_eq!(conn.publishing_type, None);
    assert!(p.output.is_empty());
}

#[test]
fn create_stream_echoes_transaction_id() {
    let mut conn = ready_connection();
    let mut payload = amf_string("createStream");
    payload.extend(amf_number(2.0));
    payload.push(0x05);
    let p = conn.process(&fmt0_chunk(3, 20, 0, &payload)).unwrap();
    let msgs = split_messages(&p.output, 128);
    let mut expected = amf_string("_result");
    expected.extend(amf_number(2.0));
    expected.extend_from_slice(&[0x03, 0x00, 0x00, 0x09, 0x03, 0x00, 0x00, 0x09]);
    assert_eq!(msgs, vec![(3, 20, 0, expected)]);
}

#[test]
fn play_is_recorded() {
    let mut conn = ready_connection();
    let mut payload = amf_string("play");
    payload.extend(amf_number(5.0));
    payload.push(0x05);
    payload.extend(amf_string("streamB"));
    payload.extend(amf_number(-2.0));
    let p = conn.process(&fmt0_chunk(3, 20, 0, &payload)).unwrap();
    assert!(p.output.is_empty());
    let play = conn.play_request.as_ref().unwrap();
    assert_eq!(play.stream_name, "streamB");
    assert_eq!(play.start, (-2.0f64).to_bits());
    assert_eq!(play.duration, 0.0f64.to_bits());
    assert!(!play.reset);
}

#[test]
fn unknown_command_is_ignored() {
    let mut conn = ready_connection();
    let mut payload = amf_string("deleteStream");
    payload.extend(amf_number(6.0));
    let input = fmt0_chunk(3, 20, 0, &payload);
    let p = conn.process(&input).unwrap();
    assert_eq!(p.consumed, input.len());
    assert!(p.output.is_empty());
    assert_eq!(conn.phase, Phase::Ready);
}

#[test]
fn chunk_fragmentation() {
    let mut conn = ready_connection();
    let mut payload = amf_string("createStream");
    payload.extend(amf_number(2.0));
    payload.push(0x05);
    payload.resize(300, 0x05);
    let mut input = fmt0_chunk(3, 20, 0, &payload[..128]);
    input[6] = 0x2c;
    input[5] = 0x01;
    let p = conn.process(&input).unwrap();
    assert_eq!(p.consumed, 140);
    assert!(p.output.is_empty());
    let mut second = vec![0xc3];
    second.extend_from_slice(&payload[128..256]);
    let p = conn.process(&second).unwrap();
    assert_eq!(p.consumed, 129);
    assert!(p.output.is_empty());
    assert_eq!(conn.multiplexer.buffered_len(3), 256);
    let mut third = vec![0xc3];
    third.extend_from_slice(&payload[256..]);
    let p = conn.process(&third).unwrap();
    assert_eq!(p.consumed, 45);
    assert_eq!(split_messages(&p.output, 128).len(), 1);
    assert_eq!(conn.multiplexer.buffered_len(3), 0);
}

#[test]
fn chunk_size_change_mid_message() {
    let mut conn = ready_connection();
    let payload: Vec<u8> = (0..300u32).map(|i| i as u8).collect();
    let mut input = fmt0_chunk(5, 9, 1, &payload[..128]);
    input[5] = 0x01;
    input[6] = 0x2c;
    assert_eq!(conn.process(&input).unwrap().consumed, 140);
    conn.process(&fmt0_chunk(2, 1, 0, &[0, 0, 0, 200])).unwrap();
    assert_eq!(conn.multiplexer.max_chunk_size, 200);
    let mut rest = vec![0xc5];
    rest.extend_from_slice(&payload[128..]);
    let p = conn.process(&rest).unwrap();
    assert_eq!(p.consumed, 173);
    assert_eq!(conn.multiplexer.buffered_len(5), 0);
}

#[test]
fn abort_drops_partial_message() {
    let mut conn = ready_connection();
    let payload = [7u8; 300];
    let mut input = fmt0_chunk(6, 9, 1, &payload[..128]);
    input[5] = 0x01;
    input[6] = 0x2c;
    conn.process(&input).unwrap();
    assert_eq!(conn.multiplexer.buffered_len(6), 128);
    conn.process(&fmt0_chunk(2, 2, 0, &[0, 0, 0, 6])).unwrap();
    assert_eq!(conn.multiplexer.buffered_len(6), 0);
}

#[test]
fn acknowledgement_and_window_recorded() {
    let mut conn = ready_connection();
    conn.process(&fmt0_chunk(2, 3, 0, &[0, 0, 0x10, 0])).unwrap();
    assert_eq!(conn.acknowledged, Some(4096));
    conn.process(&fmt0_chunk(2, 5, 0, &[0x00, 0x26, 0x25, 0xa0])).unwrap();
    assert_eq!(conn.window_ack_size, Some(2_500_000));
    conn.process(&fmt0_chunk(2, 6, 0, &[0x00, 0x26, 0x25, 0xa0, 2])).unwrap();
    let bw = conn.peer_bandwidth.unwrap();
    assert_eq!(bw.window_acknowledgement_size, 2_500_000);
    assert_eq!(bw.limit_type, 2);
}

#[test]
fn reserved_limit_type_closes_connection() {
    let mut conn = ready_connection();
    let r = conn.process(&fmt0_chunk(2, 6, 0, &[0, 0, 0, 1, 3]));
    assert_eq!(r.err(), Some(ConnectionError::Malformed(CodecError::Reserved)));
    assert_eq!(conn.phase, Phase::Closed);
    assert_eq!(conn.process(&[0x02]).err(), Some(ConnectionError::Closed));
}

#[test]
fn short_control_payload_closes_connection() {
    let mut conn = ready_connection();
    let r = conn.process(&fmt0_chunk(2, 1, 0, &[0, 1]));
    assert_eq!(r.err(), Some(ConnectionError::Malformed(CodecError::ShortRead)));
    assert_eq!(conn.phase, Phase::Closed);
}

#[test]
fn compressed_header_without_prior_closes_connection() {
    let mut conn = ready_connection();
    let r = conn.process(&[0xc4]);
    assert_eq!(r.err(), Some(ConnectionError::Malformed(CodecError::NoPriorChunk)));
    assert_eq!(conn.phase, Phase::Closed);
}

#[test]
fn media_on_other_stream_is_ignored() {
    let mut conn = ready_connection();
    let input = fmt0_chunk(4, 8, 1, &[1, 2, 3]);
    let p = conn.process(&input).unwrap();
    assert_eq!(p.consumed, input.len());
    assert!(p.output.is_empty());
}

#[test]
fn large_reply_is_fragmented_after_small_chunk_size() {
    let mut conn = ready_connection();
    let mut payload = amf_string("connect");
    payload.extend(amf_number(1.0));
    let p = conn.process(&fmt0_chunk(3, 20, 0, &payload)).unwrap();
    let msgs = split_messages(&p.output, 128);
    assert_eq!(msgs.len(), 4);
    assert!(msgs[3].3.len() > 128);
}

#[test]
fn command_name_as_long_string() {
    let mut payload = vec![0x0c, 0x00, 0x00, 0x00, 0x0c];
    payload.extend_from_slice(b"createStream");
    payload.extend(amf_number(3.0));
    let cmd = rtmp::command::parse_command(&payload);
    match cmd {
        Some(rtmp::command::Command::CreateStream { transaction_id }) => {
            assert_eq!(transaction_id, 3.0f64.to_bits())
        }
        _ => panic!("expected createStream"),
    }
}

#[test]
fn oversized_long_string_is_refused() {
    let mut payload = vec![0x0c, 0xff, 0xff, 0xff, 0xff];
    payload.extend_from_slice(b"connect");
    assert!(rtmp::command::parse_command(&payload).is_none());
}

#[test]
fn invalid_utf8_name_is_refused() {
    let mut payload = vec![0x02, 0x00, 0x02, 0xff, 0xfe];
    payload.extend(amf_number(1.0));
    assert!(rtmp::command::parse_command(&payload).is_none());
}

#[test]
fn name_must_be_a_string() {
    let mut payload = amf_number(1.0);
    payload.extend(amf_number(1.0));
    assert!(rtmp::command::parse_command(&payload).is_none());
    let mut conn = ready_connection();
    let p = conn.process(&fmt0_chunk(3, 20, 0, &payload)).unwrap();
    assert!(p.output.is_empty());
    assert_eq!(conn.phase, Phase::Ready);
}
