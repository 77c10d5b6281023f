use bytes::BytesMut;
use pulse::codec::{decode, decode_from, encode, encode_into, FrameCodec, ProtocolError, MAX_FRAME_SIZE};

fn mp_str(s: &str) -> Vec<u8> {
    let mut out = Vec::new();
    let len = s.len();
    if len < 32 {
        out.push(0xa0 | len as u8);
    } else {
        out.push(0xd9);
        out.push(len as u8);
    }
    out.extend_from_slice(s.as_bytes());
    out
}

fn mp_uint(n: u64) -> Vec<u8> {
    if n < 128 {
        vec![n as u8]
    } else if n < 256 {
        vec![0xcc, n as u8]
    } else if n < 65536 {
        vec![0xcd, (n >> 8) as u8, n as u8]
    } else {
        vec![0xce, (n >> 24) as u8, (n >> 16) as u8, (n >> 8) as u8, n as u8]
    }
}

fn mp_bin(b: &[u8]) -> Vec<u8> {
    let mut out = vec![0xc4, b.len() as u8];
    out.extend_from_slice(b);
    out
}

fn mp_map(fields: Vec<(&str, Vec<u8>)>) -> Vec<u8> {
    let mut out = vec![0x80 | fields.len() as u8];
    for (key, value) in fields {
        out.extend(mp_str(key));
        out.extend(value);
    }
    out
}

fn subscribe_body(id: u64, channel: &str) -> Vec<u8> {
    mp_map(vec![("type", mp_str("subscribe")), ("id", mp_uint(id)), ("channel", mp_str(channel))])
}

#[test]
fn test_encode_decode_roundtrip() {
    let bodies = vec![
        subscribe_body(1, "test-channel"),
        mp_map(vec![
            ("type", mp_str("publish")),
            ("channel", mp_str("chat:room")),
            ("payload", mp_bin(b"Hello, world!")),
        ]),
        mp_map(vec![("type", mp_str("ack")), ("id", mp_uint(42))]),
        mp_map(vec![
            ("type", mp_str("error")),
            ("id", mp_uint(1)),
            ("code", mp_uint(1001)),
            ("message", mp_str("Invalid frame")),
        ]),
        mp_map(vec![("type", mp_str("ping"))]),
        mp_map(vec![("type", mp_str("connect")), ("version", mp_uint(1)), ("token", mp_str("token123"))]),
        mp_map(vec![
            ("type", mp_str("connected")),
            ("connection_id", mp_str("conn-123")),
            ("version", mp_uint(1)),
            ("heartbeat", mp_uint(30000)),
        ]),
    ];

    for body in bodies {
        let encoded = encode(&body).unwrap();
        let decoded = decode(&encoded).unwrap();
        assert_eq!(&body[..], decoded);
    }
}

#[test]
fn test_decode_incomplete() {
    let body = subscribe_body(1, "test");
    let encoded = encode(&body).unwrap();

    let partial = &encoded[..5];
    match decode(partial) {
        Err(ProtocolError::Incomplete(_)) => {}
        other => panic!("Expected Incomplete error, got {:?}", other),
    }
}

#[test]
fn test_frame_too_large() {
    let large_body = vec![0u8; MAX_FRAME_SIZE + 1];

    match encode(&large_body) {
        Err(ProtocolError::FrameTooLarge(_)) => {}
        other => panic!("Expected FrameTooLarge error, got {:?}", other),
    }
}

#[test]
fn test_streaming_decode() {
    let body1 = subscribe_body(1, "test1");
    let body2 = subscribe_body(2, "test2");

    let mut buf = BytesMut::new();
    encode_into(&body1, &mut buf).unwrap();
    encode_into(&body2, &mut buf).unwrap();

    let decoded1 = decode_from(&mut buf).unwrap().unwrap();
    let decoded2 = decode_from(&mut buf).unwrap().unwrap();

    assert_eq!(&body1[..], &decoded1[..]);
    assert_eq!(&body2[..], &decoded2[..]);
    assert!(buf.is_empty());
}

#[test]
fn encode_writes_big_endian_length_then_body() {
    let encoded = encode(&[0xaa, 0xbb, 0xcc]).unwrap();
    assert_eq!(&encoded[..], &[0, 0, 0, 3, 0xaa, 0xbb, 0xcc]);

    let body = vec![7u8; 0x0102_03];
    let encoded = encode(&body).unwrap();
    assert_eq!(&encoded[..4], &[0x00, 0x01, 0x02, 0x03]);
    assert_eq!(encoded.len(), 4 + 0x0102_03);
}

#[test]
fn encode_accepts_a_body_of_exactly_the_maximum() {
    let body = vec![1u8; MAX_FRAME_SIZE];
    let encoded = encode(&body).unwrap();
    assert_eq!(encoded.len(), MAX_FRAME_SIZE + 4);
    assert_eq!(&encoded[..4], &[0x01, 0x00, 0x00, 0x00]);
    assert_eq!(decode(&encoded).unwrap().len(), MAX_FRAME_SIZE);
}

#[test]
fn encode_reports_the_size_of_an_oversized_body() {
    let body = vec![0u8; MAX_FRAME_SIZE + 1];
    match encode(&body) {
        Err(ProtocolError::FrameTooLarge(size)) => assert_eq!(size, MAX_FRAME_SIZE + 1),
        other => panic!("unexpected {:?}", other),
    }
    let mut buf = BytesMut::new();
    buf.extend_from_slice(b"kept");
    assert!(matches!(encode_into(&body, &mut buf), Err(ProtocolError::FrameTooLarge(_))));
    assert_eq!(&buf[..], b"kept");
}

#[test]
fn decode_partial_frame_reports_missing_bytes() {
    let body = subscribe_body(1, "test");
    let encoded = encode(&body).unwrap();
    let n = encoded.len();
    match decode(&encoded[..5]) {
        Err(ProtocolError::Incomplete(missing)) => assert_eq!(missing, n - 5),
        other => panic!("unexpected {:?}", other),
    }
    match decode(&encoded[..3]) {
        Err(ProtocolError::Incomplete(missing)) => assert_eq!(missing, 1),
        other => panic!("unexpected {:?}", other),
    }
    match decode(&[]) {
        Err(ProtocolError::Incomplete(missing)) => assert_eq!(missing, 4),
        other => panic!("unexpected {:?}", other),
    }
}

#[test]
fn decode_rejects_declared_length_above_maximum() {
    let data = [0x01, 0x00, 0x00, 0x01, 0xff];
    match decode(&data) {
        Err(ProtocolError::FrameTooLarge(size)) => assert_eq!(size, MAX_FRAME_SIZE + 1),
        other => panic!("unexpected {:?}", other),
    }
    let mut buf = BytesMut::new();
    buf.extend_from_slice(&data);
    assert!(matches!(decode_from(&mut buf), Err(ProtocolError::FrameTooLarge(_))));
    assert_eq!(&buf[..], &data);
}

#[test]
fn decode_rejects_empty_body_as_invalid() {
    match decode(&[0, 0, 0, 0]) {
        Err(ProtocolError::Invalid(what)) => assert_eq!(what, "empty frame body"),
        other => panic!("unexpected {:?}", other),
    }
    let mut buf = BytesMut::new();
    buf.extend_from_slice(&[0, 0, 0, 0, 9]);
    assert!(matches!(decode_from(&mut buf), Err(ProtocolError::Invalid(_))));
    assert_eq!(buf.len(), 5);
}

#[test]
fn decode_ignores_bytes_after_the_frame() {
    let mut data = encode(&[1, 2, 3]).unwrap().to_vec();
    data.extend_from_slice(&[9, 9, 9]);
    assert_eq!(decode(&data).unwrap(), &[1, 2, 3]);
}

#[test]
fn decode_from_leaves_partial_data_untouched() {
    let encoded = encode(&[5, 6, 7, 8]).unwrap();
    let mut buf = BytesMut::new();
    buf.extend_from_slice(&encoded[..2]);
    assert!(decode_from(&mut buf).unwrap().is_none());
    assert_eq!(&buf[..], &encoded[..2]);
    buf.extend_from_slice(&encoded[2..6]);
    assert!(decode_from(&mut buf).unwrap().is_none());
    assert_eq!(&buf[..], &encoded[..6]);
    buf.extend_from_slice(&encoded[6..]);
    let body = decode_from(&mut buf).unwrap().unwrap();
    assert_eq!(&body[..], &[5, 6, 7, 8]);
    assert!(buf.is_empty());
    assert!(decode_from(&mut buf).unwrap().is_none());
}

#[test]
fn stream_of_many_frames_yields_each_body_in_order() {
    let bodies: Vec<Vec<u8>> = (1..=20u8).map(|i| vec![i; i as usize]).collect();
    let mut buf = BytesMut::new();
    for body in &bodies {
        encode_into(body, &mut buf).unwrap();
    }
    for body in &bodies {
        let read = decode_from(&mut buf).unwrap().unwrap();
        assert_eq!(&read[..], &body[..]);
    }
    assert!(decode_from(&mut buf).unwrap().is_none());
    assert!(buf.is_empty());
}

#[test]
fn frame_codec_delegates_to_the_free_functions() {
    let codec = FrameCodec::new();
    let encoded = codec.encode(&[4, 5]).unwrap();
    assert_eq!(&encoded[..], &[0, 0, 0, 2, 4, 5]);
    assert_eq!(codec.decode(&encoded).unwrap(), &[4, 5]);
    let mut buf = BytesMut::new();
    buf.extend_from_slice(&encoded);
    assert_eq!(&codec.decode_from(&mut buf).unwrap().unwrap()[..], &[4, 5]);
}

#[test]
fn protocol_error_messages() {
    assert_eq!(
        ProtocolError::FrameTooLarge(16777217).to_string(),
        "Frame size 16777217 exceeds maximum 16777216"
    );
    assert_eq!(ProtocolError::Incomplete(0).to_string(), "Incomplete frame: need 0 more bytes");
    assert_eq!(ProtocolError::Incomplete(12).to_string(), "Incomplete frame: need 12 more bytes");
    assert_eq!(ProtocolError::Encode("x".to_string()).to_string(), "Encoding error: x");
    assert_eq!(ProtocolError::Decode("y".to_string()).to_string(), "Decoding error: y");
    assert_eq!(ProtocolError::Invalid("z".to_string()).to_string(), "Invalid frame: z");
}
