use snap_lights::audio::{downmix, frame_delay, fresh, time_diff_of};
use snap_lights::client::{ClientError, FrameQueue, SnapClient, SnapServerSettings};
use snap_lights::discovery::{connect_target, HostAddr, Record};
use snap_lights::protocol::{SnapBase, SnapKind, SnapMessage};

const MS: i64 = 1000;

fn flac_header() -> Vec<u8> {
    let mut h = b"fLaC".to_vec();
    h.extend_from_slice(&[0x80, 0x00, 0x00, 0x22]);
    h.extend_from_slice(&[0x10, 0x00, 0x10, 0x00, 0, 0, 0, 0, 0, 0, 0x0A, 0xC4, 0x42, 0xF0]);
    h.extend_from_slice(&[0; 20]);
    h
}

fn crc8(data: &[u8]) -> u8 {
    let mut crc: u8 = 0;
    for &b in data {
        crc ^= b;
        for _ in 0..8 {
            crc = if crc & 0x80 != 0 { (crc << 1) ^ 0x07 } else { crc << 1 };
        }
    }
    crc
}

fn crc16(data: &[u8]) -> u16 {
    let mut crc: u16 = 0;
    for &b in data {
        crc ^= (b as u16) << 8;
        for _ in 0..8 {
            crc = if crc & 0x8000 != 0 { (crc << 1) ^ 0x8005 } else { crc << 1 };
        }
    }
    crc
}

/// A FLAC frame of 192 samples in two constant 16-bit channels.
fn flac_frame(left: i16, right: i16) -> Vec<u8> {
    let mut f = vec![0xFF, 0xF8, 0x19, 0x18, 0x00];
    let c = crc8(&f);
    f.push(c);
    f.push(0x00);
    f.extend_from_slice(&left.to_be_bytes());
    f.push(0x00);
    f.extend_from_slice(&right.to_be_bytes());
    let c = crc16(&f);
    f.extend_from_slice(&c.to_be_bytes());
    f
}

fn msg(kind: SnapKind, sent: i64, received: i64) -> SnapMessage {
    SnapMessage { base: SnapBase { id: 0, refers_to: 0, received, sent }, kind }
}

fn flac_client() -> SnapClient {
    let mut c = SnapClient::new();
    let header = msg(
        SnapKind::CodecHeader { codec: "flac".to_string(), payload: flac_header() },
        0,
        0,
    );
    assert_eq!(c.process_message(&header, 0), Ok(()));
    c
}

#[test]
fn clock_sync_average() {
    // delta = +20 ms, sent - received = +10 ms
    assert_eq!(time_diff_of(20 * MS, 110 * MS, 100 * MS), 15 * MS as i128);
    let mut c = SnapClient::new();
    let m = msg(SnapKind::Time { delta: 20 * MS }, 110 * MS, 100 * MS);
    assert_eq!(c.process_message(&m, 0), Ok(()));
    assert_eq!(c.clock_offset(), 15 * MS as i128);
}

#[test]
fn clock_offset_rounds_toward_zero() {
    assert_eq!(time_diff_of(-3, 0, 0), -1);
    assert_eq!(time_diff_of(3, 0, 0), 1);
}

#[test]
fn clock_error_stays_bounded() {
    // A peer 5 s ahead, legs of 0..=4 ms: every estimate is within 4 ms.
    let skew = 5_000 * MS;
    let mut c = SnapClient::new();
    for (up, down) in [(0, 4), (4, 0), (1, 3), (2, 2), (4, 4), (3, 0)] {
        let sent = 1_000_000 + skew;
        let received = 1_000_000 + down * MS;
        let m = msg(SnapKind::Time { delta: skew + up * MS }, sent, received);
        c.process_message(&m, 0).unwrap();
        let err = c.clock_offset() - skew as i128;
        assert!(err.abs() <= 4 * MS as i128);
    }
}

#[test]
fn frame_scheduling() {
    assert_eq!(frame_delay(50 * MS, 0, 0, 100 * MS as i128), Some(150 * MS as i128));
    assert_eq!(frame_delay(-200 * MS, 0, 0, 100 * MS as i128), None);
    assert_eq!(frame_delay(-100 * MS, 0, 0, 100 * MS as i128), None);
}

#[test]
fn schedule_uses_settings() {
    let mut c = SnapClient::new();
    c.apply_settings(&SnapServerSettings { buffer_ms: 100, latency: 0, muted: false, volume: 100 });
    assert_eq!(c.buffer_micros(), 100 * MS as i128);
    assert!(c.schedule(vec![1, 2, 3], 50 * MS, 0));
    assert_eq!(c.next_deadline(), Some(150 * MS as i128));
    assert!(!c.schedule(vec![4], -200 * MS, 0));
    assert_eq!(c.queued(), 1);
}

#[test]
fn stale_expiry() {
    let mut c = SnapClient::new();
    c.apply_codec_header(&"flac".to_string(), Some(44100)).unwrap();
    c.apply_settings(&SnapServerSettings { buffer_ms: 100, latency: 0, muted: false, volume: 0 });
    assert!(c.schedule(vec![7; 1024], 0, 0));
    // due at 100 ms; 50 ms late is more than the 23.2 ms that it lasts
    assert_eq!(c.next_frame(150 * MS), None);
    assert_eq!(c.queued(), 0);
    assert!(c.schedule(vec![7; 1024], 150 * MS, 150 * MS));
    // due at 250 ms; 5 ms late is fine
    assert_eq!(c.next_frame(255 * MS), Some(vec![7; 1024]));
}

#[test]
fn freshness_limit() {
    assert!(fresh(23_000, 1024, Some(44100)));
    assert!(!fresh(23_300, 1024, Some(44100)));
    assert!(fresh(20_000, 1, None));
    assert!(!fresh(20_001, 1, None));
    // late by exactly its length: still played
    assert!(fresh(1_000_000, 44100, Some(44100)));
    assert!(!fresh(1_000_001, 44100, Some(44100)));
}

#[test]
fn frame_not_due_stays() {
    let mut c = SnapClient::new();
    c.apply_settings(&SnapServerSettings { buffer_ms: 100, latency: 0, muted: false, volume: 0 });
    assert!(c.schedule(vec![1], 0, 0));
    assert_eq!(c.next_frame(99 * MS), None);
    assert_eq!(c.queued(), 1);
    assert_eq!(c.next_frame(100 * MS), Some(vec![1]));
}

#[test]
fn delivery_in_deadline_order() {
    let mut c = SnapClient::new();
    c.apply_settings(&SnapServerSettings { buffer_ms: 1000, latency: 0, muted: false, volume: 0 });
    for (k, ts) in [300i64, 100, 200, 100, 50].iter().enumerate() {
        assert!(c.schedule(vec![k as i32], ts * MS, 0));
    }
    let mut order = Vec::new();
    for t in [1_050, 1_100, 1_200, 1_300] {
        while let Some(f) = c.next_frame(t * MS) {
            order.push(f[0]);
        }
    }
    assert_eq!(order, vec![4, 1, 3, 2, 0]);
}

#[test]
fn queue_pops_in_order() {
    let mut q = FrameQueue::new();
    q.insert(30, vec![3]);
    q.insert(10, vec![1]);
    q.insert(20, vec![2]);
    q.insert(10, vec![4]);
    let mut seen = Vec::new();
    while let Some(f) = q.pop_expired(100) {
        seen.push((f.deadline, f.samples[0]));
    }
    assert_eq!(seen, vec![(10, 1), (10, 4), (20, 2), (30, 3)]);
}

#[test]
fn queue_keeps_future_frames() {
    let mut q = FrameQueue::new();
    q.insert(30, vec![3]);
    assert!(q.pop_expired(29).is_none());
    assert_eq!(q.len(), 1);
    assert_eq!(q.peek_deadline(), Some(30));
}

#[test]
fn downmix_two_channels() {
    let block = vec![10, -3, 7, 2, -4, 0];
    assert_eq!(downmix(block, 2), vec![6, -3, 3]);
    assert_eq!(downmix(vec![1, 2, 3], 1), vec![1, 2, 3]);
    assert_eq!(downmix(vec![1, 2, 3, 4, 5, 6, 100], 3), vec![3, 4]);
    assert_eq!(downmix(vec![i32::MAX, i32::MAX], 2), vec![i32::MAX]);
}

#[test]
fn unsupported_codec() {
    let mut c = SnapClient::new();
    let m = msg(SnapKind::CodecHeader { codec: "opus".to_string(), payload: vec![] }, 0, 0);
    assert_eq!(c.process_message(&m, 0), Err(ClientError::UnsupportedCodec));
    assert_eq!(c.rate(), None);
}

#[test]
fn flac_header_sets_rate() {
    let c = flac_client();
    assert_eq!(c.rate(), Some(44100));
    let mut d = SnapClient::new();
    let m = msg(SnapKind::CodecHeader { codec: "flac".to_string(), payload: vec![1, 2, 3] }, 0, 0);
    assert_eq!(d.process_message(&m, 0), Err(ClientError::BadHeader));
}

#[test]
fn chunk_before_header_ignored() {
    let mut c = SnapClient::new();
    let m = msg(SnapKind::WireChunk { timestamp: 0, payload: flac_frame(1, 1) }, 0, 0);
    assert_eq!(c.process_message(&m, 0), Ok(()));
    assert_eq!(c.queued(), 0);
}

#[test]
fn chunk_decoded_and_downmixed() {
    let mut c = flac_client();
    c.apply_settings(&SnapServerSettings { buffer_ms: 100, latency: 0, muted: false, volume: 0 });
    let m = msg(SnapKind::WireChunk { timestamp: 0, payload: flac_frame(100, -50) }, 0, 0);
    assert_eq!(c.process_message(&m, 0), Ok(()));
    assert_eq!(c.queued(), 1);
    assert_eq!(c.next_frame(100 * MS), Some(vec![25; 192]));
}

#[test]
fn bad_chunk_dropped() {
    let mut c = flac_client();
    let m = msg(SnapKind::WireChunk { timestamp: 0, payload: vec![1, 2, 3] }, 0, 0);
    assert_eq!(c.process_message(&m, 0), Err(ClientError::BadBlock));
    assert_eq!(c.queued(), 0);
}

#[test]
fn discovery_prefers_ipv4() {
    let v4 = u32::from_be_bytes([192, 168, 1, 42]);
    let v6: u128 = 0xfe80_0000_0000_0000_0000_0000_0000_0001;
    let rs = [Record::A(v4), Record::Aaaa(v6), Record::Srv { port: 1704 }];
    assert_eq!(connect_target(&rs), Some((HostAddr::V4(v4), 1704)));
    let rs = [Record::Aaaa(v6), Record::Other, Record::Srv { port: 1704 }, Record::A(v4)];
    assert_eq!(connect_target(&rs), Some((HostAddr::V4(v4), 1704)));
    let rs = [Record::Aaaa(v6), Record::Srv { port: 1704 }];
    assert_eq!(connect_target(&rs), Some((HostAddr::V6(v6), 1704)));
    assert_eq!(connect_target(&[Record::A(v4)]), None);
    assert_eq!(connect_target(&[Record::Srv { port: 1 }]), None);
}
