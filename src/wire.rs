//! Little-endian integers and signed microsecond durations as they appear on
//! the wire.

use vstd::prelude::*;

verus! {

/// Microseconds in one second.
pub const MICROS_PER_SEC: i64 = 1_000_000;

/// The two little-endian bytes of a 16-bit value.
pub open spec fn le16(v: int) -> Seq<u8> {
    seq![(v % 256) as u8, ((v / 256) % 256) as u8]
}

/// The four little-endian bytes of a 32-bit value.
pub open spec fn le32(v: int) -> Seq<u8> {
    seq![
        (v % 256) as u8,
        ((v / 256) % 256) as u8,
        ((v / 65536) % 256) as u8,
        ((v / 16777216) % 256) as u8,
    ]
}

/// The 16-bit value whose little-endian bytes start at `at`.
pub open spec fn read16(s: Seq<u8>, at: int) -> int {
    s[at] + 256 * s[at + 1]
}

/// The 32-bit value whose little-endian bytes start at `at`.
pub open spec fn read32(s: Seq<u8>, at: int) -> int {
    s[at] + 256 * s[at + 1] + 65536 * s[at + 2] + 16777216 * s[at + 3]
}

/// The unsigned 32-bit pattern of a signed 32-bit value (two's complement).
pub open spec fn bits_of_i32(v: int) -> int {
    if v < 0 {
        v + 0x1_0000_0000
    } else {
        v
    }
}

/// The signed 32-bit value of an unsigned 32-bit pattern (two's complement).
pub open spec fn i32_of_bits(u: int) -> int {
    if u >= 0x8000_0000 {
        u - 0x1_0000_0000
    } else {
        u
    }
}

/// Division rounding toward zero, as Rust's `/` on signed integers.
pub open spec fn trunc_div(a: int, b: int) -> int
    recommends
        b > 0,
{
    if a >= 0 {
        a / b
    } else {
        -((-a) / b)
    }
}

/// The whole seconds of a duration in microseconds, rounded toward zero.
pub open spec fn whole_seconds(d: int) -> int {
    trunc_div(d, 1_000_000)
}

/// The microseconds left over after the whole seconds; it has the sign of `d`.
pub open spec fn subsec_micros(d: int) -> int {
    d - whole_seconds(d) * 1_000_000
}

/// The duration made of a seconds part and a microseconds part.
pub open spec fn join_micros(sec: int, usec: int) -> int {
    sec * 1_000_000 + usec
}

/// A duration whose whole seconds fit in a signed 32-bit field.
pub open spec fn fits_wire(d: int) -> bool {
    -0x8000_0000 <= whole_seconds(d) < 0x8000_0000
}

/// The eight bytes that carry a duration: seconds, then microseconds.
pub open spec fn duration_bytes(d: int) -> Seq<u8> {
    le32(bits_of_i32(whole_seconds(d))) + le32(bits_of_i32(subsec_micros(d)))
}

/// The duration carried by the eight bytes at `at`.
pub open spec fn read_duration(s: Seq<u8>, at: int) -> int {
    join_micros(i32_of_bits(read32(s, at)), i32_of_bits(read32(s, at + 4)))
}

/// The largest magnitude of a duration read from the wire.
pub open spec fn wire_bound() -> int {
    0x8000_0000int * 1_000_000 + 0x8000_0000
}

pub proof fn lemma_le16_round_trip(v: int)
    requires
        0 <= v < 0x1_0000,
    ensures
        read16(le16(v), 0) == v,
        le16(v).len() == 2,
{
}

pub proof fn lemma_le32_round_trip(v: int)
    requires
        0 <= v < 0x1_0000_0000,
    ensures
        read32(le32(v), 0) == v,
        le32(v).len() == 4,
{
}

pub proof fn lemma_bits_round_trip(v: int)
    requires
        -0x8000_0000 <= v < 0x8000_0000,
    ensures
        0 <= bits_of_i32(v) < 0x1_0000_0000,
        i32_of_bits(bits_of_i32(v)) == v,
{
}

/// A duration that fits the wire comes back unchanged from its eight bytes.
pub proof fn lemma_duration_round_trip(d: int)
    requires
        fits_wire(d),
    ensures
        duration_bytes(d).len() == 8,
        read_duration(duration_bytes(d), 0) == d,
{
    let s = whole_seconds(d);
    let u = subsec_micros(d);
    assert(-1_000_000 < u < 1_000_000);
    lemma_bits_round_trip(s);
    lemma_bits_round_trip(u);
    lemma_le32_round_trip(bits_of_i32(s));
    lemma_le32_round_trip(bits_of_i32(u));
    let b = duration_bytes(d);
    assert(b.subrange(0, 4) =~= le32(bits_of_i32(s)));
    assert(b.subrange(4, 8) =~= le32(bits_of_i32(u)));
    assert(read32(b, 0) == read32(b.subrange(0, 4), 0));
    assert(read32(b, 4) == read32(b.subrange(4, 8), 0));
}

/// Reads the little-endian 16-bit value at `at`.
pub fn get_u16_le(buf: &[u8], at: usize) -> (r: u16)
    requires
        at + 2 <= buf@.len(),
    ensures
        r == read16(buf@, at as int),
{
    buf[at] as u16 + 256 * (buf[at + 1] as u16)
}

/// Reads the little-endian 32-bit value at `at`.
pub fn get_u32_le(buf: &[u8], at: usize) -> (r: u32)
    requires
        at + 4 <= buf@.len(),
    ensures
        r == read32(buf@, at as int),
{
    buf[at] as u32 + 256 * (buf[at + 1] as u32) + 65536 * (buf[at + 2] as u32) + 16777216 * (
    buf[at + 3] as u32)
}

/// Reads the signed duration carried by the eight bytes at `at`.
pub fn get_duration(buf: &[u8], at: usize) -> (r: i64)
    requires
        at + 8 <= buf@.len(),
    ensures
        r == read_duration(buf@, at as int),
        -wire_bound() <= r <= wire_bound(),
{
    let len = buf.len();
    assert(at + 4 < len);
    let s = get_u32_le(buf, at);
    let u = get_u32_le(buf, at + 4);
    let sec: i64 = if s >= 0x8000_0000 {
        s as i64 - 0x1_0000_0000
    } else {
        s as i64
    };
    let usec: i64 = if u >= 0x8000_0000 {
        u as i64 - 0x1_0000_0000
    } else {
        u as i64
    };
    assert(-0x8000_0000 * 1_000_000 <= sec * 1_000_000 <= 0x8000_0000 * 1_000_000) by (nonlinear_arith)
        requires
            -0x8000_0000 <= sec < 0x8000_0000,
    ;
    sec * MICROS_PER_SEC + usec
}

/// Appends the little-endian bytes of a 16-bit value.
pub fn put_u16_le(dst: &mut Vec<u8>, v: u16)
    ensures
        final(dst)@ == old(dst)@ + le16(v as int),
{
    dst.push((v % 256) as u8);
    dst.push(((v / 256) % 256) as u8);
    assert(final(dst)@ =~= old(dst)@ + le16(v as int));
}

/// Appends the little-endian bytes of a 32-bit value.
pub fn put_u32_le(dst: &mut Vec<u8>, v: u32)
    ensures
        final(dst)@ == old(dst)@ + le32(v as int),
{
    dst.push((v % 256) as u8);
    dst.push(((v / 256) % 256) as u8);
    dst.push(((v / 65536) % 256) as u8);
    dst.push(((v / 16777216) % 256) as u8);
    assert(final(dst)@ =~= old(dst)@ + le32(v as int));
}

/// Appends the two's complement bytes of a signed 32-bit value.
pub fn put_i32_le(dst: &mut Vec<u8>, v: i32)
    ensures
        final(dst)@ == old(dst)@ + le32(bits_of_i32(v as int)),
{
    let u: u32 = if v < 0 {
        (v as i64 + 0x1_0000_0000) as u32
    } else {
        v as u32
    };
    put_u32_le(dst, u);
}

/// Splits a duration into whole seconds and residual microseconds, or `None`
/// when the seconds do not fit in a signed 32-bit field.
pub fn split_duration(d: i64) -> (r: Option<(i32, i32)>)
    ensures
        r is Some <==> fits_wire(d as int),
        r matches Some((s, u)) ==> s == whole_seconds(d as int) && u == subsec_micros(d as int),
{
    let sec: i64 = d / MICROS_PER_SEC;
    let usec: i64 = d % MICROS_PER_SEC;
    proof {
        assert(sec == whole_seconds(d as int) && usec == subsec_micros(d as int));
    }
    if sec < -0x8000_0000 || sec >= 0x8000_0000 {
        None
    } else {
        Some((sec as i32, usec as i32))
    }
}

/// Appends the eight bytes of a duration that fits the wire.
pub fn put_duration(dst: &mut Vec<u8>, d: i64)
    requires
        fits_wire(d as int),
    ensures
        final(dst)@ == old(dst)@ + duration_bytes(d as int),
{
    let sec: i64 = d / MICROS_PER_SEC;
    let usec: i64 = d % MICROS_PER_SEC;
    proof {
        assert(sec == whole_seconds(d as int) && usec == subsec_micros(d as int));
    }
    put_i32_le(dst, sec as i32);
    put_i32_le(dst, usec as i32);
    assert(final(dst)@ =~= old(dst)@ + duration_bytes(d as int));
}

} // verus!
