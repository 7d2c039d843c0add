//! Arithmetic of the received audio: clock offset, play delay, staleness and
//! the downmix of a decoded block to one channel. Times are in microseconds.

use vstd::prelude::*;
use vstd::arithmetic::div_mod::{lemma_div_is_ordered, lemma_div_by_multiple, lemma_fundamental_div_mod, lemma_mod_pos_bound};
use crate::wire::trunc_div;

verus! {

/// The client's estimate of server clock minus client clock after a Time
/// reply: the mean of the skew that the server saw (`delta`) and the skew
/// that this client sees (`sent` on the server's clock minus `received` on
/// its own), rounded toward zero.
pub open spec fn clock_offset(delta: int, sent: int, received: int) -> int {
    trunc_div(delta + (sent - received), 2)
}

/// Computes `clock_offset`.
pub fn time_diff_of(delta: i64, sent: i64, received: i64) -> (r: i128)
    ensures
        r == clock_offset(delta as int, sent as int, received as int),
{
    let s: i128 = delta as i128 + (sent as i128 - received as i128);
    if s >= 0 {
        s / 2
    } else {
        -((-s) / 2)
    }
}

/// Clock synchronization does not drift: if the server's clock runs `skew`
/// ahead of the client's, and each leg of a Time exchange takes between 0 and
/// `max_delay`, then the request shows the server a skew of `skew + up` and the
/// reply shows the client one of `skew - down`, and the offset taken from the
/// reply is within `max_delay` of `skew`. Each reply replaces the offset, so
/// this holds after any number of exchanges.
pub proof fn lemma_clock_error_bounded(
    skew: int,
    up: int,
    down: int,
    max_delay: int,
    sent: int,
    received: int,
)
    requires
        0 <= up <= max_delay,
        0 <= down <= max_delay,
        sent - received == skew - down,
    ensures
        skew - max_delay <= clock_offset(skew + up, sent, received) <= skew + max_delay,
{
    let s = skew + up + (sent - received);
    assert(s == 2 * skew + (up - down));
    if s >= 0 {
        assert(s / 2 * 2 <= s < s / 2 * 2 + 2);
    } else {
        assert((-s) / 2 * 2 <= -s < (-s) / 2 * 2 + 2);
    }
}

/// How long after `now` a chunk stamped `timestamp` on the server's clock
/// is to be played, given the clock offset and the server's buffer.
pub open spec fn play_delay(timestamp: int, now: int, time_diff: int, buffer: int) -> int {
    (timestamp - (now + time_diff)) + buffer
}

/// The delay before a chunk is played, or `None` when its play time has
/// already passed and it is to be dropped.
pub fn frame_delay(timestamp: i64, now: i128, time_diff: i128, buffer: i128) -> (r: Option<i128>)
    requires
        -0x1_0000_0000_0000_0000_0000 <= now <= 0x1_0000_0000_0000_0000_0000,
        -0x1_0000_0000_0000_0000_0000 <= time_diff <= 0x1_0000_0000_0000_0000_0000,
        -0x1_0000_0000_0000_0000_0000 <= buffer <= 0x1_0000_0000_0000_0000_0000,
    ensures
        r is Some <==> play_delay(timestamp as int, now as int, time_diff as int, buffer as int) > 0,
        r matches Some(d) ==> d == play_delay(timestamp as int, now as int, time_diff as int, buffer as int),
{
    let delay = (timestamp as i128 - (now + time_diff)) + buffer;
    if delay > 0 {
        Some(delay)
    } else {
        None
    }
}

/// Whether a frame of `samples` samples at `rate` Hz, `over` microseconds
/// past its play time, is still worth playing: it is late by no more than
/// its own length. Without a known rate the limit is 20 ms.
pub open spec fn is_fresh(over: int, samples: int, rate: Option<u32>) -> bool {
    match rate {
        Some(r) => over * r <= samples * 1_000_000,
        None => over <= 20_000,
    }
}

/// Computes `is_fresh`.
pub fn fresh(over: i128, samples: usize, rate: Option<u32>) -> (r: bool)
    requires
        -0x1_0000_0000_0000_0000_0000 <= over <= 0x1_0000_0000_0000_0000_0000,
    ensures
        r == is_fresh(over as int, samples as int, rate),
{
    match rate {
        Some(hz) => {
            assert(-0x1_0000_0000_0000_0000_0000 * 0x1_0000_0000 <= over * hz <= 0x1_0000_0000_0000_0000_0000 * 0x1_0000_0000) by (nonlinear_arith)
                requires
                    -0x1_0000_0000_0000_0000_0000 <= over <= 0x1_0000_0000_0000_0000_0000,
                    0 <= hz < 0x1_0000_0000,
            ;
            over * (hz as i128) <= (samples as i128) * 1_000_000
        },
        None => over <= 20_000,
    }
}

/// The sum over channels `0..c` of sample `i` of a block whose channels of
/// `bs` samples each are stored one after another.
pub open spec fn channel_sum(buf: Seq<i32>, i: int, bs: int, c: int) -> int
    decreases c,
{
    if c <= 0 {
        0
    } else {
        channel_sum(buf, i, bs, c - 1) + buf[i + bs * (c - 1)]
    }
}

/// One channel made of a block of `c` channels stored one after another:
/// sample `i` is the mean of the channels' samples `i`, rounded toward zero.
/// A block of one channel is kept as it is.
pub open spec fn downmix_spec(buf: Seq<i32>, c: int) -> Seq<i32> {
    if c == 1 {
        buf
    } else {
        Seq::new(
            (buf.len() as int / c) as nat,
            |i: int| trunc_div(channel_sum(buf, i, buf.len() as int / c, c), c) as i32,
        )
    }
}

proof fn lemma_mean_fits(sum: int, c: int)
    requires
        c >= 1,
        -0x8000_0000 * c <= sum <= 0x7fff_ffff * c,
    ensures
        -0x8000_0000 <= trunc_div(sum, c) <= 0x7fff_ffff,
{
    if sum >= 0 {
        lemma_div_is_ordered(sum, 0x7fff_ffff * c, c);
        lemma_div_by_multiple(0x7fff_ffff, c);
        lemma_div_is_ordered(0, sum, c);
    } else {
        lemma_div_is_ordered(-sum, 0x8000_0000 * c, c);
        lemma_div_by_multiple(0x8000_0000, c);
        lemma_div_is_ordered(0, -sum, c);
    }
}

/// Averages the channels of a decoded block, stored one after another, into
/// one channel.
pub fn downmix(buf: Vec<i32>, channels: u32) -> (r: Vec<i32>)
    requires
        channels >= 1,
    ensures
        r@ == downmix_spec(buf@, channels as int),
{
    if channels == 1 {
        return buf;
    }
    let c = channels as usize;
    let len = buf.len();
    let bs = len / c;
    proof {
        lemma_fundamental_div_mod(len as int, c as int);
        lemma_mod_pos_bound(len as int, c as int);
        assert(bs * c <= len) by (nonlinear_arith)
            requires
                len == c * bs + len % c,
                len % c >= 0,
        ;
    }
    let mut out: Vec<i32> = Vec::new();
    let mut i: usize = 0;
    while i < bs
        invariant
            bs == len / c,
            bs * c <= len,
            len == buf@.len(),
            c == channels,
            c >= 2,
            i <= bs,
            out@.len() == i,
            forall|k: int| 0 <= k < i ==> out@[k] == downmix_spec(buf@, c as int)[k],
        decreases bs - i,
    {
        let mut sum: i128 = 0;
        let mut j: usize = 0;
        let mut idx: usize = i;
        while j < c
            invariant
                bs * c <= len,
                len == buf@.len(),
                i < bs,
                j <= c,
                j < c ==> idx == i + bs * j,
                sum == channel_sum(buf@, i as int, bs as int, j as int),
                -0x8000_0000 * j <= sum <= 0x7fff_ffff * j,
                c <= 0x1_0000_0000,
            decreases c - j,
        {
            proof {
                assert(i + bs * j < bs * c) by (nonlinear_arith)
                    requires
                        i < bs,
                        j < c,
                ;
                assert(bs * (j + 1) == bs * j + bs) by (nonlinear_arith);
            }
            sum = sum + buf[idx] as i128;
            j = j + 1;
            if j < c {
                proof {
                    assert(i + bs * j < bs * c) by (nonlinear_arith)
                        requires
                            i < bs,
                            j < c,
                    ;
                }
                idx = idx + bs;
            }
        }
        proof {
            lemma_mean_fits(sum as int, c as int);
        }
        let mean: i128 = if sum >= 0 {
            sum / (c as i128)
        } else {
            -((-sum) / (c as i128))
        };
        out.push(mean as i32);
        i = i + 1;
    }
    assert(out@ =~= downmix_spec(buf@, c as int));
    out
}

/// Downmix of two channels: for a block `L ++ R` of two equal halves, sample
/// `i` of the result is `(L[i] + R[i]) / 2`, rounded toward zero.
pub proof fn lemma_two_channel_mean(l: Seq<i32>, r: Seq<i32>, i: int)
    requires
        l.len() == r.len(),
        0 <= i < l.len(),
    ensures
        downmix_spec(l + r, 2).len() == l.len(),
        downmix_spec(l + r, 2)[i] == trunc_div(l[i] + r[i], 2) as i32,
{
    let b = l + r;
    assert(b.len() / 2 == l.len());
    let n = l.len() as int;
    assert(channel_sum(b, i, n, 1) == channel_sum(b, i, n, 0) + b[i + n * 0]);
    assert(channel_sum(b, i, n, 2) == channel_sum(b, i, n, 1) + b[i + n * 1]);
    assert(b[i] == l[i] && b[i + n] == r[i]);
}

} // verus!
