use snap_lights::protocol::{ProtocolError, SnapBase, SnapCodec, SnapKind, SnapMessage};
use snap_lights::stream::{SnapHello, SnapStream};

fn message(kind: SnapKind) -> SnapMessage {
    SnapMessage {
        base: SnapBase { id: 7, refers_to: 3, received: 1_500_000, sent: -2_250_001 },
        kind,
    }
}

fn encode(m: &SnapMessage) -> Vec<u8> {
    let mut out = Vec::new();
    SnapCodec::new().encode(m, &mut out).unwrap();
    out
}

fn decode_all(bytes: &[u8], received: i64) -> (Result<Option<SnapMessage>, ProtocolError>, Vec<u8>) {
    let mut buf = bytes.to_vec();
    let r = SnapCodec::new().decode(&mut buf, received);
    (r, buf)
}

fn same_kind(a: &SnapKind, b: &SnapKind) -> bool {
    match (a, b) {
        (
            SnapKind::CodecHeader { codec: c1, payload: pa },
            SnapKind::CodecHeader { codec: c2, payload: pb },
        ) => c1 == c2 && pa == pb,
        (
            SnapKind::WireChunk { timestamp: t1, payload: pa },
            SnapKind::WireChunk { timestamp: t2, payload: pb },
        ) => t1 == t2 && pa == pb,
        (SnapKind::ServerSettings { json: a }, SnapKind::ServerSettings { json: b }) => a == b,
        (SnapKind::Time { delta: a }, SnapKind::Time { delta: b }) => a == b,
        (SnapKind::Hello { json: a }, SnapKind::Hello { json: b }) => a == b,
        (SnapKind::StreamTags { json: a }, SnapKind::StreamTags { json: b }) => a == b,
        _ => false,
    }
}

fn assert_round_trip(kind: SnapKind) {
    let m = message(kind);
    let bytes = encode(&m);
    let (r, rest) = decode_all(&bytes, 99);
    let d = r.unwrap().unwrap();
    assert!(rest.is_empty());
    assert_eq!(d.base.id, 7);
    assert_eq!(d.base.refers_to, 3);
    assert_eq!(d.base.sent, -2_250_001);
    assert_eq!(d.base.received, 99);
    assert!(same_kind(&d.kind, &m.kind));
}

#[test]
fn envelope_parse_invalid_hello() {
    let mut bytes: Vec<u8> = vec![
        0x05, 0x00, 0x07, 0x00, 0x00, 0x00, 0x00, 0x00, 0x00, 0x00, 0x00, 0x00, 0x00, 0x00, 0x2A,
        0x00, 0x00, 0x00, 0x00, 0x00, 0x00, 0x00, 0x10, 0x00, 0x00, 0x00,
    ];
    bytes.extend_from_slice(&[0x0C, 0x00, 0x00, 0x00]);
    bytes.extend_from_slice(b"helloworld!!");
    assert_eq!(bytes.len(), 42);
    bytes.extend_from_slice(&[1, 2, 3]);
    let (r, rest) = decode_all(&bytes, 0);
    assert!(matches!(r, Err(ProtocolError::Malformed(5))));
    assert_eq!(rest, vec![1, 2, 3]);
}

#[test]
fn round_trip_every_kind() {
    assert_round_trip(SnapKind::CodecHeader {
        codec: "flac".to_string(),
        payload: vec![0x66, 0x4c, 0x61, 0x43, 0, 255],
    });
    assert_round_trip(SnapKind::CodecHeader { codec: "opus·ü".to_string(), payload: vec![] });
    assert_round_trip(SnapKind::WireChunk { timestamp: -1_999_999, payload: vec![9; 300] });
    assert_round_trip(SnapKind::ServerSettings {
        json: br#"{"bufferMs":1000,"latency":0,"muted":false,"volume":100}"#.to_vec(),
    });
    assert_round_trip(SnapKind::Time { delta: 20_000 });
    assert_round_trip(SnapKind::Hello { json: br#"{"Arch":"x86_64"}"#.to_vec() });
    assert_round_trip(SnapKind::StreamTags { json: br#"{"artist":"x"}"#.to_vec() });
}

#[test]
fn encoded_layout() {
    let m = SnapMessage {
        base: SnapBase { id: 0x0102, refers_to: 0, received: 0, sent: 42_000_000 },
        kind: SnapKind::Time { delta: -1_500_000 },
    };
    let bytes = encode(&m);
    assert_eq!(
        bytes,
        vec![
            4, 0, 2, 1, 0, 0, 0, 0, 0, 0, 0, 0, 0, 0, 42, 0, 0, 0, 0, 0, 0, 0, 8, 0, 0, 0, 0xFF,
            0xFF, 0xFF, 0xFF, 0xE0, 0x5E, 0xF8, 0xFF,
        ]
    );
}

#[test]
fn prefix_needs_more() {
    let m = message(SnapKind::WireChunk { timestamp: 5, payload: vec![1, 2, 3, 4, 5] });
    let bytes = encode(&m);
    for k in 0..bytes.len() {
        let (r, rest) = decode_all(&bytes[..k], 0);
        assert!(matches!(r, Ok(None)));
        assert_eq!(rest, bytes[..k].to_vec());
    }
}

#[test]
fn two_messages_in_one_buffer() {
    let a = encode(&message(SnapKind::Time { delta: 1 }));
    let b = encode(&message(SnapKind::Time { delta: 2 }));
    let mut buf = a.clone();
    buf.extend_from_slice(&b);
    let mut codec = SnapCodec::new();
    let first = codec.decode(&mut buf, 0).unwrap().unwrap();
    assert!(matches!(first.kind, SnapKind::Time { delta: 1 }));
    assert_eq!(buf, b);
    let second = codec.decode(&mut buf, 0).unwrap().unwrap();
    assert!(matches!(second.kind, SnapKind::Time { delta: 2 }));
    assert!(buf.is_empty());
}

#[test]
fn unknown_tag() {
    let mut bytes = encode(&message(SnapKind::Time { delta: 1 }));
    bytes[0] = 9;
    let (r, rest) = decode_all(&bytes, 0);
    assert!(matches!(r, Err(ProtocolError::UnknownTag(9))));
    assert!(rest.is_empty());
}

#[test]
fn bad_codec_name() {
    let mut bytes = encode(&message(SnapKind::CodecHeader {
        codec: "ab".to_string(),
        payload: vec![],
    }));
    bytes[30] = 0xFF;
    let (r, _) = decode_all(&bytes, 0);
    assert!(matches!(r, Err(ProtocolError::BadString)));
}

#[test]
fn truncated_body() {
    let mut bytes = encode(&message(SnapKind::WireChunk { timestamp: 0, payload: vec![1, 2, 3] }));
    // claim a payload longer than the body
    bytes[34] = 200;
    let (r, _) = decode_all(&bytes, 0);
    assert!(matches!(r, Err(ProtocolError::Truncated(2))));
}

#[test]
fn valid_json_accepted_invalid_rejected() {
    let ok = encode(&message(SnapKind::StreamTags { json: b"{}".to_vec() }));
    assert!(decode_all(&ok, 0).0.unwrap().is_some());
    let bad = encode(&message(SnapKind::StreamTags { json: b"{".to_vec() }));
    assert!(matches!(decode_all(&bad, 0).0, Err(ProtocolError::Malformed(6))));
}

#[test]
fn encode_overflow() {
    let m = SnapMessage {
        base: SnapBase { id: 0, refers_to: 0, received: 0, sent: 0x8000_0000 * 1_000_000 },
        kind: SnapKind::Time { delta: 0 },
    };
    let mut out = vec![7];
    assert!(matches!(SnapCodec::new().encode(&m, &mut out), Err(ProtocolError::Overflow)));
    assert_eq!(out, vec![7]);
}

#[test]
fn stream_numbers_messages() {
    let mut s = SnapStream::new();
    let mut out = Vec::new();
    s.send(SnapKind::Time { delta: 0 }, 1_000_001, &mut out).unwrap();
    s.send(SnapKind::Time { delta: 0 }, 2_000_000, &mut out).unwrap();
    assert_eq!(s.current_id(), 2);
    let mut codec = SnapCodec::new();
    let a = codec.decode(&mut out, 0).unwrap().unwrap();
    let b = codec.decode(&mut out, 0).unwrap().unwrap();
    assert_eq!((a.base.id, a.base.refers_to, a.base.sent), (0, 0, 1_000_001));
    assert_eq!((b.base.id, b.base.sent), (1, 2_000_000));
}

#[test]
fn hello_fields() {
    let h = SnapHello::new(
        "x86_64".to_string(),
        "host".to_string(),
        "00:11:22:33:44:55".to_string(),
        "Linux".to_string(),
    );
    assert_eq!(h.id, "00:11:22:33:44:55");
    assert_eq!(h.mac, "00:11:22:33:44:55");
    assert_eq!(h.instance, 1);
    assert_eq!(h.protocol_version, 2);
    assert_eq!(h.client_name, "Snapclient");
}

#[test]
fn sizes_match_encoding() {
    assert_eq!(SnapKind::Time { delta: 0 }.size(), Some(8));
    let m = message(SnapKind::WireChunk { timestamp: 1, payload: vec![0; 10] });
    assert_eq!(m.size(), Some(26 + 22));
    assert_eq!(m.size(), Some(encode(&m).len() as u64));
    assert_eq!(SnapKind::Time { delta: i64::MAX }.size(), None);
}

#[test]
fn round_trip_varied_payloads() {
    let mut seed: u32 = 12345;
    let mut next = || {
        seed = seed.wrapping_mul(1_103_515_245).wrapping_add(12_345);
        (seed >> 16) as u8
    };
    for len in 0..64usize {
        let payload: Vec<u8> = (0..len).map(|_| next()).collect();
        let ts = (next() as i64 - 128) * 1_000_003;
        assert_round_trip(SnapKind::WireChunk { timestamp: ts, payload: payload.clone() });
        assert_round_trip(SnapKind::CodecHeader { codec: "x".repeat(len % 7), payload });
        assert_round_trip(SnapKind::Time { delta: ts * 17 });
    }
}
