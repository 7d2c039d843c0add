//! The Snapcast wire codec: a 26-byte envelope followed by a body whose layout
//! depends on the message's type tag.

use vstd::prelude::*;
use vstd::slice::{slice_subrange, slice_to_vec};
use vstd::utf8::{decode_utf8, encode_utf8, valid_utf8};
use crate::wire::{
    lemma_duration_round_trip, lemma_le16_round_trip, lemma_le32_round_trip,
    duration_bytes, fits_wire, get_duration, get_u16_le, get_u32_le, le16, le32, put_duration,
    put_u16_le, put_u32_le, read16, read32, read_duration, split_duration,
};

verus! {

broadcast use vstd::utf8::group_utf8_lib;

/// The size of the envelope that starts every message.
pub const BASE_MESSAGE_SIZE: usize = 26;

pub const TAG_CODEC_HEADER: u16 = 1;
pub const TAG_WIRE_CHUNK: u16 = 2;
pub const TAG_SERVER_SETTINGS: u16 = 3;
pub const TAG_TIME: u16 = 4;
pub const TAG_HELLO: u16 = 5;
pub const TAG_STREAM_TAGS: u16 = 6;

/// Why a message could not be decoded or encoded.
#[derive(Clone, Copy, Debug, PartialEq, Eq, Structural)]
pub enum ProtocolError {
    /// The envelope carries a type tag that names no message kind.
    UnknownTag(u16),
    /// The JSON text in a body of the given kind does not parse.
    Malformed(u16),
    /// The codec name of a codec header is not UTF-8.
    BadString,
    /// A body of the given kind ends before one of its fields.
    Truncated(u16),
    /// A duration or a length does not fit in its field.
    Overflow,
}

/// The envelope fields of a message. Durations are in microseconds.
#[derive(Clone, Copy, Debug, PartialEq, Eq, Structural)]
pub struct SnapBase {
    pub id: u16,
    pub refers_to: u16,
    /// When the receiver got the message, on the receiver's clock.
    pub received: i64,
    /// When the sender sent the message, on the sender's clock.
    pub sent: i64,
}

/// The body of a message. JSON bodies are carried as their UTF-8 text.
#[derive(Debug)]
pub enum SnapKind {
    CodecHeader { codec: String, payload: Vec<u8> },
    /// `timestamp` is on the server's clock, in microseconds.
    WireChunk { timestamp: i64, payload: Vec<u8> },
    ServerSettings { json: Vec<u8> },
    /// A signed clock delta in microseconds.
    Time { delta: i64 },
    Hello { json: Vec<u8> },
    StreamTags { json: Vec<u8> },
}

#[derive(Debug)]
pub struct SnapMessage {
    pub base: SnapBase,
    pub kind: SnapKind,
}

/// The mathematical content of a message body.
pub enum KindView {
    CodecHeader { codec: Seq<char>, payload: Seq<u8> },
    WireChunk { timestamp: int, payload: Seq<u8> },
    ServerSettings { json: Seq<u8> },
    Time { delta: int },
    Hello { json: Seq<u8> },
    StreamTags { json: Seq<u8> },
}

/// The mathematical content of a message.
pub struct MessageView {
    pub id: u16,
    pub refers_to: u16,
    pub received: int,
    pub sent: int,
    pub kind: KindView,
}

impl View for SnapKind {
    type V = KindView;

    open spec fn view(&self) -> KindView {
        match self {
            SnapKind::CodecHeader { codec, payload } => KindView::CodecHeader {
                codec: codec@,
                payload: payload@,
            },
            SnapKind::WireChunk { timestamp, payload } => KindView::WireChunk {
                timestamp: *timestamp as int,
                payload: payload@,
            },
            SnapKind::ServerSettings { json } => KindView::ServerSettings { json: json@ },
            SnapKind::Time { delta } => KindView::Time { delta: *delta as int },
            SnapKind::Hello { json } => KindView::Hello { json: json@ },
            SnapKind::StreamTags { json } => KindView::StreamTags { json: json@ },
        }
    }
}

impl View for SnapMessage {
    type V = MessageView;

    open spec fn view(&self) -> MessageView {
        MessageView {
            id: self.base.id,
            refers_to: self.base.refers_to,
            received: self.base.received as int,
            sent: self.base.sent as int,
            kind: self.kind@,
        }
    }
}

/// Whether `b` is one JSON text, as serde_json reads it.
pub uninterp spec fn is_json_text(b: Seq<u8>) -> bool;

/// The type tag of a message kind.
pub open spec fn kind_tag(k: KindView) -> u16 {
    match k {
        KindView::CodecHeader { .. } => TAG_CODEC_HEADER,
        KindView::WireChunk { .. } => TAG_WIRE_CHUNK,
        KindView::ServerSettings { .. } => TAG_SERVER_SETTINGS,
        KindView::Time { .. } => TAG_TIME,
        KindView::Hello { .. } => TAG_HELLO,
        KindView::StreamTags { .. } => TAG_STREAM_TAGS,
    }
}

/// A byte string preceded by its 32-bit length.
pub open spec fn prefixed(b: Seq<u8>) -> Seq<u8> {
    le32(b.len() as int) + b
}

/// The body bytes of a message kind.
pub open spec fn body_bytes(k: KindView) -> Seq<u8> {
    match k {
        KindView::CodecHeader { codec, payload } => prefixed(encode_utf8(codec)) + prefixed(
            payload,
        ),
        KindView::WireChunk { timestamp, payload } => duration_bytes(timestamp) + prefixed(
            payload,
        ),
        KindView::ServerSettings { json } => prefixed(json),
        KindView::Time { delta } => duration_bytes(delta),
        KindView::Hello { json } => prefixed(json),
        KindView::StreamTags { json } => prefixed(json),
    }
}

/// Every length and duration of a body fits its field.
pub open spec fn kind_fits(k: KindView) -> bool {
    &&& body_bytes(k).len() < 0x1_0000_0000
    &&& match k {
        KindView::CodecHeader { codec, payload } => encode_utf8(codec).len() < 0x1_0000_0000
            && payload.len() < 0x1_0000_0000,
        KindView::WireChunk { timestamp, payload } => fits_wire(timestamp) && payload.len()
            < 0x1_0000_0000,
        KindView::ServerSettings { json } => json.len() < 0x1_0000_0000,
        KindView::Time { delta } => fits_wire(delta),
        KindView::Hello { json } => json.len() < 0x1_0000_0000,
        KindView::StreamTags { json } => json.len() < 0x1_0000_0000,
    }
}

/// Every length and duration of a message fits its field.
pub open spec fn message_fits(m: MessageView) -> bool {
    fits_wire(m.received) && fits_wire(m.sent) && kind_fits(m.kind)
}

/// The JSON bodies of a message kind hold JSON text.
pub open spec fn json_ok(k: KindView) -> bool {
    match k {
        KindView::ServerSettings { json } => is_json_text(json),
        KindView::Hello { json } => is_json_text(json),
        KindView::StreamTags { json } => is_json_text(json),
        _ => true,
    }
}

/// A message that encodes and decodes back to itself.
pub open spec fn well_formed(m: MessageView) -> bool {
    message_fits(m) && json_ok(m.kind)
}

/// The envelope of a message.
pub open spec fn envelope_bytes(m: MessageView) -> Seq<u8> {
    le16(kind_tag(m.kind) as int) + le16(m.id as int) + le16(m.refers_to as int) + duration_bytes(
        m.received,
    ) + duration_bytes(m.sent) + le32(body_bytes(m.kind).len() as int)
}

/// The bytes of a whole message on the wire.
pub open spec fn message_bytes(m: MessageView) -> Seq<u8> {
    envelope_bytes(m) + body_bytes(m.kind)
}

/// The length of the first frame in `s`, once all of it is there.
pub open spec fn frame_len(s: Seq<u8>) -> Option<int> {
    if s.len() < BASE_MESSAGE_SIZE {
        None
    } else if s.len() < BASE_MESSAGE_SIZE + read32(s, 22) {
        None
    } else {
        Some(BASE_MESSAGE_SIZE + read32(s, 22))
    }
}

/// The JSON body of a message kind, once the text has been checked.
pub open spec fn json_kind(tag: u16, json: Seq<u8>) -> KindView {
    if tag == TAG_SERVER_SETTINGS {
        KindView::ServerSettings { json }
    } else if tag == TAG_HELLO {
        KindView::Hello { json }
    } else {
        KindView::StreamTags { json }
    }
}

pub open spec fn parse_json_body(tag: u16, b: Seq<u8>) -> Result<KindView, ProtocolError> {
    if b.len() < 4 {
        Err(ProtocolError::Truncated(tag))
    } else if b.len() < 4 + read32(b, 0) {
        Err(ProtocolError::Truncated(tag))
    } else if !is_json_text(b.subrange(4, 4 + read32(b, 0))) {
        Err(ProtocolError::Malformed(tag))
    } else {
        Ok(json_kind(tag, b.subrange(4, 4 + read32(b, 0))))
    }
}

pub open spec fn parse_codec_header(b: Seq<u8>) -> Result<KindView, ProtocolError> {
    let t = ProtocolError::Truncated(TAG_CODEC_HEADER);
    if b.len() < 4 {
        Err(t)
    } else {
        let cl = read32(b, 0);
        if b.len() < 4 + cl {
            Err(t)
        } else if !valid_utf8(b.subrange(4, 4 + cl)) {
            Err(ProtocolError::BadString)
        } else if b.len() < 8 + cl {
            Err(t)
        } else {
            let pl = read32(b, 4 + cl);
            if b.len() < 8 + cl + pl {
                Err(t)
            } else {
                Ok(
                    KindView::CodecHeader {
                        codec: decode_utf8(b.subrange(4, 4 + cl)),
                        payload: b.subrange(8 + cl, 8 + cl + pl),
                    },
                )
            }
        }
    }
}

pub open spec fn parse_wire_chunk(b: Seq<u8>) -> Result<KindView, ProtocolError> {
    if b.len() < 12 {
        Err(ProtocolError::Truncated(TAG_WIRE_CHUNK))
    } else if b.len() < 12 + read32(b, 8) {
        Err(ProtocolError::Truncated(TAG_WIRE_CHUNK))
    } else {
        Ok(
            KindView::WireChunk {
                timestamp: read_duration(b, 0),
                payload: b.subrange(12, 12 + read32(b, 8)),
            },
        )
    }
}

/// The message kind that a body of type `tag` holds. Bytes after the last
/// field are ignored.
pub open spec fn parse_body(tag: u16, b: Seq<u8>) -> Result<KindView, ProtocolError> {
    if tag == TAG_CODEC_HEADER {
        parse_codec_header(b)
    } else if tag == TAG_WIRE_CHUNK {
        parse_wire_chunk(b)
    } else if tag == TAG_TIME {
        if b.len() < 8 {
            Err(ProtocolError::Truncated(TAG_TIME))
        } else {
            Ok(KindView::Time { delta: read_duration(b, 0) })
        }
    } else if tag == TAG_SERVER_SETTINGS || tag == TAG_HELLO || tag == TAG_STREAM_TAGS {
        parse_json_body(tag, b)
    } else {
        Err(ProtocolError::UnknownTag(tag))
    }
}

/// The message of the complete frame `s`, stamped with `received`.
pub open spec fn parse_frame(s: Seq<u8>, received: int) -> Result<MessageView, ProtocolError> {
    match parse_body(read16(s, 0) as u16, s.subrange(26, s.len() as int)) {
        Ok(kind) => Ok(
            MessageView {
                id: read16(s, 2) as u16,
                refers_to: read16(s, 4) as u16,
                received,
                sent: read_duration(s, 14),
                kind,
            },
        ),
        Err(e) => Err(e),
    }
}

/// What decoding the front of `s` yields: nothing while the first frame is
/// incomplete, else the frame's length and its message or error.
pub open spec fn decode_spec(s: Seq<u8>, received: int) -> Option<
    (int, Result<MessageView, ProtocolError>),
> {
    match frame_len(s) {
        None => None,
        Some(n) => Some((n, parse_frame(s.subrange(0, n), received))),
    }
}

pub open spec fn result_view(r: Result<SnapMessage, ProtocolError>) -> Result<
    MessageView,
    ProtocolError,
> {
    match r {
        Ok(m) => Ok(m@),
        Err(e) => Err(e),
    }
}

proof fn lemma_read16_at(s: Seq<u8>, at: int, v: int)
    requires
        0 <= at,
        at + 2 <= s.len(),
        s.subrange(at, at + 2) == le16(v),
        0 <= v < 0x1_0000,
    ensures
        read16(s, at) == v,
{
    lemma_le16_round_trip(v);
    assert(read16(s, at) == read16(s.subrange(at, at + 2), 0));
}

proof fn lemma_read32_at(s: Seq<u8>, at: int, v: int)
    requires
        0 <= at,
        at + 4 <= s.len(),
        s.subrange(at, at + 4) == le32(v),
        0 <= v < 0x1_0000_0000,
    ensures
        read32(s, at) == v,
{
    lemma_le32_round_trip(v);
    assert(read32(s, at) == read32(s.subrange(at, at + 4), 0));
}

proof fn lemma_read_duration_at(s: Seq<u8>, at: int, d: int)
    requires
        0 <= at,
        at + 8 <= s.len(),
        s.subrange(at, at + 8) == duration_bytes(d),
        fits_wire(d),
    ensures
        read_duration(s, at) == d,
{
    lemma_duration_round_trip(d);
    let t = s.subrange(at, at + 8);
    assert(read32(s, at) == read32(t, 0));
    assert(read32(s, at + 4) == read32(t, 4));
}

proof fn lemma_prefixed_parts(p: Seq<u8>, rest: Seq<u8>)
    requires
        p.len() < 0x1_0000_0000,
    ensures
        (prefixed(p) + rest).len() == 4 + p.len() + rest.len(),
        read32(prefixed(p) + rest, 0) == p.len(),
        (prefixed(p) + rest).subrange(4, 4 + p.len() as int) == p,
        (prefixed(p) + rest).subrange(4 + p.len() as int, 4 + p.len() as int + rest.len()) == rest,
{
    let s = prefixed(p) + rest;
    assert(s.subrange(0, 4) =~= le32(p.len() as int));
    lemma_read32_at(s, 0, p.len() as int);
    assert(s.subrange(4, 4 + p.len() as int) =~= p);
    assert(s.subrange(4 + p.len() as int, 4 + p.len() as int + rest.len()) =~= rest);
}

/// The body of a kind whose fields fit parses back to that kind.
pub proof fn lemma_body_round_trip(k: KindView)
    requires
        kind_fits(k),
        json_ok(k),
    ensures
        parse_body(kind_tag(k), body_bytes(k)) == Ok::<KindView, ProtocolError>(k),
{
    let b = body_bytes(k);
    match k {
        KindView::CodecHeader { codec, payload } => {
            let enc = encode_utf8(codec);
            let tail = prefixed(payload);
            lemma_prefixed_parts(enc, tail);
            lemma_prefixed_parts(payload, Seq::<u8>::empty());
            assert(tail + Seq::<u8>::empty() =~= tail);
            let cl = enc.len() as int;
            assert(b.subrange(4 + cl, b.len() as int) == tail);
            assert(b.subrange(4 + cl, 8 + cl) =~= tail.subrange(0, 4));
            assert(tail.subrange(0, 4) =~= le32(payload.len() as int));
            lemma_read32_at(b, 4 + cl, payload.len() as int);
            assert(b.subrange(8 + cl, 8 + cl + payload.len() as int) =~= tail.subrange(
                4,
                4 + payload.len() as int,
            ));
        },
        KindView::WireChunk { timestamp, payload } => {
            assert(b.subrange(0, 8) =~= duration_bytes(timestamp));
            lemma_duration_round_trip(timestamp);
            lemma_read_duration_at(b, 0, timestamp);
            assert(b.subrange(8, 12) =~= le32(payload.len() as int));
            lemma_read32_at(b, 8, payload.len() as int);
            assert(b.subrange(12, 12 + payload.len() as int) =~= payload);
        },
        KindView::Time { delta } => {
            lemma_duration_round_trip(delta);
            assert(b.subrange(0, 8) =~= duration_bytes(delta));
            lemma_read_duration_at(b, 0, delta);
        },
        KindView::ServerSettings { json } => {
            lemma_prefixed_parts(json, Seq::<u8>::empty());
            assert(prefixed(json) + Seq::<u8>::empty() =~= prefixed(json));
        },
        KindView::Hello { json } => {
            lemma_prefixed_parts(json, Seq::<u8>::empty());
            assert(prefixed(json) + Seq::<u8>::empty() =~= prefixed(json));
        },
        KindView::StreamTags { json } => {
            lemma_prefixed_parts(json, Seq::<u8>::empty());
            assert(prefixed(json) + Seq::<u8>::empty() =~= prefixed(json));
        },
    }
}

proof fn lemma_envelope_fields(m: MessageView)
    requires
        message_fits(m),
    ensures
        envelope_bytes(m).len() == BASE_MESSAGE_SIZE,
        ({
            let s = message_bytes(m);
            &&& s.len() == BASE_MESSAGE_SIZE + body_bytes(m.kind).len()
            &&& read16(s, 0) == kind_tag(m.kind)
            &&& read16(s, 2) == m.id
            &&& read16(s, 4) == m.refers_to
            &&& read_duration(s, 14) == m.sent
            &&& read32(s, 22) == body_bytes(m.kind).len()
            &&& s.subrange(26, s.len() as int) == body_bytes(m.kind)
        }),
{
    lemma_duration_round_trip(m.received);
    lemma_duration_round_trip(m.sent);
    let s = message_bytes(m);
    let body = body_bytes(m.kind);
    assert(s.subrange(0, 2) =~= le16(kind_tag(m.kind) as int));
    assert(s.subrange(2, 4) =~= le16(m.id as int));
    assert(s.subrange(4, 6) =~= le16(m.refers_to as int));
    assert(s.subrange(14, 22) =~= duration_bytes(m.sent));
    assert(s.subrange(22, 26) =~= le32(body.len() as int));
    assert(s.subrange(26, s.len() as int) =~= body);
    lemma_read16_at(s, 0, kind_tag(m.kind) as int);
    lemma_read16_at(s, 2, m.id as int);
    lemma_read16_at(s, 4, m.refers_to as int);
    lemma_read_duration_at(s, 14, m.sent);
    lemma_read32_at(s, 22, body.len() as int);
}

/// Framing round trip: decoding the bytes of a well-formed message yields
/// that message, with `received` replaced by the receiver's own stamp, and
/// spans exactly its bytes.
pub proof fn lemma_round_trip(m: MessageView, received: int)
    requires
        well_formed(m),
    ensures
        decode_spec(message_bytes(m), received) == Some(
            (
                message_bytes(m).len() as int,
                Ok::<MessageView, ProtocolError>(
                    MessageView {
                        id: m.id,
                        refers_to: m.refers_to,
                        received,
                        sent: m.sent,
                        kind: m.kind,
                    },
                ),
            ),
        ),
{
    let s = message_bytes(m);
    lemma_envelope_fields(m);
    lemma_body_round_trip(m.kind);
    assert(s.subrange(0, s.len() as int) =~= s);
}

/// Framing resynchronization: a proper prefix of a message's bytes decodes to
/// "need more".
pub proof fn lemma_prefix_needs_more(m: MessageView, k: int, received: int)
    requires
        message_fits(m),
        0 <= k < message_bytes(m).len(),
    ensures
        decode_spec(message_bytes(m).subrange(0, k), received) is None,
{
    let s = message_bytes(m);
    lemma_envelope_fields(m);
    let p = s.subrange(0, k);
    if k >= 26 {
        assert(read32(p, 22) == read32(s, 22));
    }
}

/// Relies on serde_json::from_slice, read into serde's `IgnoredAny`: it
/// succeeds exactly when the bytes hold one JSON text.
#[verifier::external_body]
fn json_accepts(b: &[u8]) -> (r: bool)
    ensures
        r == is_json_text(b@),
{
    serde_json::from_slice::<serde::de::IgnoredAny>(b).is_ok()
}

/// Relies on std::str::from_utf8: it succeeds exactly on valid UTF-8, and the
/// text it returns has those bytes.
#[verifier::external_body]
fn utf8_string(b: &[u8]) -> (r: Option<String>)
    ensures
        r is Some <==> valid_utf8(b@),
        r matches Some(s) ==> encode_utf8(s@) == b@,
{
    std::str::from_utf8(b).ok().map(|s| s.to_string())
}

pub open spec fn kind_result_view(r: Result<SnapKind, ProtocolError>) -> Result<
    KindView,
    ProtocolError,
> {
    match r {
        Ok(k) => Ok(k@),
        Err(e) => Err(e),
    }
}

/// Copies `b[start..end]` into a new vector.
fn copy_range(b: &[u8], start: usize, end: usize) -> (r: Vec<u8>)
    requires
        start <= end <= b@.len(),
    ensures
        r@ == b@.subrange(start as int, end as int),
{
    slice_to_vec(slice_subrange(b, start, end))
}

fn parse_json_body_exec(tag: u16, b: &[u8]) -> (r: Result<SnapKind, ProtocolError>)
    requires
        tag == TAG_SERVER_SETTINGS || tag == TAG_HELLO || tag == TAG_STREAM_TAGS,
    ensures
        kind_result_view(r) == parse_json_body(tag, b@),
{
    let len = b.len();
    if len < 4 {
        return Err(ProtocolError::Truncated(tag));
    }
    let jl = get_u32_le(b, 0) as usize;
    if len - 4 < jl {
        return Err(ProtocolError::Truncated(tag));
    }
    let text = slice_subrange(b, 4, 4 + jl);
    if !json_accepts(text) {
        return Err(ProtocolError::Malformed(tag));
    }
    let json = slice_to_vec(text);
    if tag == TAG_SERVER_SETTINGS {
        Ok(SnapKind::ServerSettings { json })
    } else if tag == TAG_HELLO {
        Ok(SnapKind::Hello { json })
    } else {
        Ok(SnapKind::StreamTags { json })
    }
}

fn parse_codec_header_exec(b: &[u8]) -> (r: Result<SnapKind, ProtocolError>)
    ensures
        kind_result_view(r) == parse_codec_header(b@),
{
    let t = ProtocolError::Truncated(TAG_CODEC_HEADER);
    let len = b.len();
    if len < 4 {
        return Err(t);
    }
    let cl = get_u32_le(b, 0) as usize;
    if len - 4 < cl {
        return Err(t);
    }
    match utf8_string(slice_subrange(b, 4, 4 + cl)) {
        None => Err(ProtocolError::BadString),
        Some(codec) => {
            if len - 4 - cl < 4 {
                return Err(t);
            }
            let pl = get_u32_le(b, 4 + cl) as usize;
            if len - 8 - cl < pl {
                return Err(t);
            }
            let payload = copy_range(b, 8 + cl, 8 + cl + pl);
            Ok(SnapKind::CodecHeader { codec, payload })
        },
    }
}

fn parse_wire_chunk_exec(b: &[u8]) -> (r: Result<SnapKind, ProtocolError>)
    ensures
        kind_result_view(r) == parse_wire_chunk(b@),
{
    let len = b.len();
    if len < 12 {
        return Err(ProtocolError::Truncated(TAG_WIRE_CHUNK));
    }
    let pl = get_u32_le(b, 8) as usize;
    if len - 12 < pl {
        return Err(ProtocolError::Truncated(TAG_WIRE_CHUNK));
    }
    let timestamp = get_duration(b, 0);
    let payload = copy_range(b, 12, 12 + pl);
    Ok(SnapKind::WireChunk { timestamp, payload })
}

/// Parses the body of a message of type `tag`.
pub fn parse_body_exec(tag: u16, b: &[u8]) -> (r: Result<SnapKind, ProtocolError>)
    ensures
        kind_result_view(r) == parse_body(tag, b@),
{
    if tag == TAG_CODEC_HEADER {
        parse_codec_header_exec(b)
    } else if tag == TAG_WIRE_CHUNK {
        parse_wire_chunk_exec(b)
    } else if tag == TAG_TIME {
        if b.len() < 8 {
            Err(ProtocolError::Truncated(TAG_TIME))
        } else {
            Ok(SnapKind::Time { delta: get_duration(b, 0) })
        }
    } else if tag == TAG_SERVER_SETTINGS || tag == TAG_HELLO || tag == TAG_STREAM_TAGS {
        parse_json_body_exec(tag, b)
    } else {
        Err(ProtocolError::UnknownTag(tag))
    }
}

/// Decodes the first frame of `buf`: `None` while it is incomplete, else the
/// number of bytes it spans and its message (stamped with `received`) or the
/// error that its body gives.
pub fn decode_frame(buf: &[u8], received: i64) -> (r: Option<
    (usize, Result<SnapMessage, ProtocolError>),
>)
    ensures
        r is None <==> decode_spec(buf@, received as int) is None,
        r matches Some((n, res)) ==> decode_spec(buf@, received as int) == Some(
            (n as int, result_view(res)),
        ),
{
    let len = buf.len();
    if len < BASE_MESSAGE_SIZE {
        return None;
    }
    let size = get_u32_le(buf, 22) as usize;
    if len - BASE_MESSAGE_SIZE < size {
        return None;
    }
    let n = BASE_MESSAGE_SIZE + size;
    let tag = get_u16_le(buf, 0);
    let id = get_u16_le(buf, 2);
    let refers_to = get_u16_le(buf, 4);
    let sent = get_duration(buf, 14);
    let body = slice_subrange(buf, BASE_MESSAGE_SIZE, n);
    let parsed = parse_body_exec(tag, body);
    proof {
        let s = buf@.subrange(0, n as int);
        assert(s.subrange(26, s.len() as int) =~= body@);
        assert(read16(s, 0) == read16(buf@, 0));
        assert(read16(s, 2) == read16(buf@, 2));
        assert(read16(s, 4) == read16(buf@, 4));
        assert(read_duration(s, 14) == read_duration(buf@, 14));
    }
    let res = match parsed {
        Ok(kind) => Ok(SnapMessage { base: SnapBase { id, refers_to, received, sent }, kind }),
        Err(e) => Err(e),
    };
    Some((n, res))
}

/// Appends a byte string preceded by its 32-bit length.
fn put_prefixed(dst: &mut Vec<u8>, b: &[u8])
    requires
        b@.len() < 0x1_0000_0000,
    ensures
        final(dst)@ == old(dst)@ + prefixed(b@),
{
    put_u32_le(dst, b.len() as u32);
    dst.extend_from_slice(b);
    assert(final(dst)@ =~= old(dst)@ + prefixed(b@));
}

impl SnapKind {
    /// The type tag of this kind.
    pub fn id(&self) -> (r: u16)
        ensures
            r == kind_tag(self@),
    {
        match self {
            SnapKind::CodecHeader { .. } => TAG_CODEC_HEADER,
            SnapKind::WireChunk { .. } => TAG_WIRE_CHUNK,
            SnapKind::ServerSettings { .. } => TAG_SERVER_SETTINGS,
            SnapKind::Time { .. } => TAG_TIME,
            SnapKind::Hello { .. } => TAG_HELLO,
            SnapKind::StreamTags { .. } => TAG_STREAM_TAGS,
        }
    }

    /// The body bytes of this kind, or `Overflow` when a duration or a length
    /// does not fit its field.
    pub fn body(&self) -> (r: Result<Vec<u8>, ProtocolError>)
        ensures
            r is Ok <==> kind_fits(self@),
            r matches Ok(b) ==> b@ == body_bytes(self@),
            r matches Err(e) ==> e == ProtocolError::Overflow,
    {
        let mut out: Vec<u8> = Vec::new();
        match self {
            SnapKind::CodecHeader { codec, payload } => {
                let name = codec.as_str().as_bytes();
                if name.len() as u64 >= 0x1_0000_0000 || payload.len() as u64 >= 0x1_0000_0000 {
                    return Err(ProtocolError::Overflow);
                }
                put_prefixed(&mut out, name);
                put_prefixed(&mut out, payload.as_slice());
            },
            SnapKind::WireChunk { timestamp, payload } => {
                if split_duration(*timestamp).is_none() || payload.len() as u64 >= 0x1_0000_0000 {
                    return Err(ProtocolError::Overflow);
                }
                put_duration(&mut out, *timestamp);
                put_prefixed(&mut out, payload.as_slice());
            },
            SnapKind::Time { delta } => {
                if split_duration(*delta).is_none() {
                    return Err(ProtocolError::Overflow);
                }
                put_duration(&mut out, *delta);
            },
            SnapKind::ServerSettings { json } | SnapKind::Hello { json } | SnapKind::StreamTags {
                json,
            } => {
                if json.len() as u64 >= 0x1_0000_0000 {
                    return Err(ProtocolError::Overflow);
                }
                put_prefixed(&mut out, json.as_slice());
            },
        }
        assert(out@ =~= body_bytes(self@));
        if out.len() as u64 >= 0x1_0000_0000 {
            return Err(ProtocolError::Overflow);
        }
        Ok(out)
    }
}

impl SnapKind {
    /// The length of this kind's body, or `None` when a duration or a length
    /// does not fit its field.
    pub fn size(&self) -> (r: Option<u32>)
        ensures
            r is Some <==> kind_fits(self@),
            r matches Some(n) ==> n == body_bytes(self@).len(),
    {
        match self.body() {
            Ok(b) => Some(b.len() as u32),
            Err(_) => None,
        }
    }
}

impl SnapMessage {
    /// The length of this message on the wire, or `None` when a duration or a
    /// length of its body does not fit its field.
    pub fn size(&self) -> (r: Option<u64>)
        ensures
            r is Some <==> kind_fits(self.kind@),
            r matches Some(n) ==> n == BASE_MESSAGE_SIZE + body_bytes(self.kind@).len(),
    {
        match self.kind.size() {
            Some(n) => Some(BASE_MESSAGE_SIZE as u64 + n as u64),
            None => None,
        }
    }
}

/// The codec of a Snapcast stream: frames messages onto bytes and back.
pub struct SnapCodec;

impl SnapCodec {
    pub fn new() -> (r: SnapCodec) {
        SnapCodec
    }

    /// Decodes the first message in `src`, stamping it with `received`.
    /// While the first frame is incomplete, returns `Ok(None)` and leaves `src`
    /// as it is; otherwise removes the frame's bytes from `src` and returns its
    /// message or the error of its body.
    pub fn decode(&mut self, src: &mut Vec<u8>, received: i64) -> (r: Result<
        Option<SnapMessage>,
        ProtocolError,
    >)
        ensures
            decode_spec(old(src)@, received as int) is None ==> r == Ok::<
                Option<SnapMessage>,
                ProtocolError,
            >(None) && final(src)@ == old(src)@,
            decode_spec(old(src)@, received as int) matches Some((n, res)) ==> final(src)@
                == old(src)@.subrange(n, old(src)@.len() as int) && match r {
                Ok(Some(m)) => res == Ok::<MessageView, ProtocolError>(m@),
                Ok(None) => false,
                Err(e) => res == Err::<MessageView, ProtocolError>(e),
            },
    {
        match decode_frame(src.as_slice(), received) {
            None => Ok(None),
            Some((n, res)) => {
                let rest = copy_range(src.as_slice(), n, src.len());
                *src = rest;
                match res {
                    Ok(m) => Ok(Some(m)),
                    Err(e) => Err(e),
                }
            },
        }
    }

    /// Appends the bytes of `item` to `dst`, or fails with `Overflow` (leaving
    /// `dst` as it is) when a duration or a length does not fit its field.
    pub fn encode(&mut self, item: &SnapMessage, dst: &mut Vec<u8>) -> (r: Result<(), ProtocolError>)
        ensures
            r is Ok <==> message_fits(item@),
            r is Ok ==> final(dst)@ == old(dst)@ + message_bytes(item@),
            r is Err ==> final(dst)@ == old(dst)@ && r == Err::<(), ProtocolError>(
                ProtocolError::Overflow,
            ),
    {
        let body = match item.kind.body() {
            Ok(b) => b,
            Err(e) => return Err(e),
        };
        if split_duration(item.base.received).is_none() || split_duration(item.base.sent).is_none() {
            return Err(ProtocolError::Overflow);
        }
        put_u16_le(dst, item.kind.id());
        put_u16_le(dst, item.base.id);
        put_u16_le(dst, item.base.refers_to);
        put_duration(dst, item.base.received);
        put_duration(dst, item.base.sent);
        put_u32_le(dst, body.len() as u32);
        dst.extend_from_slice(body.as_slice());
        assert(final(dst)@ =~= old(dst)@ + message_bytes(item@));
        Ok(())
    }
}

} // verus!
