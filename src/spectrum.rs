//! The audio-to-level part of the color pipeline that works on integers: the
//! sliding sample window that feeds the transform, the frequency bands, the
//! band levels taken from the transform's magnitudes, and the "gravity"
//! smoothing of each band. Levels are fixed point, in thousandths.

use vstd::prelude::*;
use vstd::arithmetic::div_mod::lemma_div_is_ordered;

verus! {

/// The number of samples per second.
pub const SAMPLE_RATE: u64 = 44100;

/// The number of samples in the window that feeds the transform.
pub const BUFFER_SIZE: usize = 4096;

/// One unit of level, in thousandths.
pub const LEVEL_SCALE: i64 = 1000;

/// How much a band's velocity falls each tick: one unit of level.
pub const GRAVITY: i64 = 1000;

/// The largest band level taken from the magnitudes.
pub const LEVEL_CAP: i64 = 0x100_0000_0000;

/// The bounds of a band's value and velocity.
pub const STATE_CAP: i64 = 0x400_0000_0000;

/// The window after `frame` arrived: its samples come first, newest at index
/// 0, and the older samples move up by its length; the oldest fall out.
pub open spec fn slide(window: Seq<i32>, frame: Seq<i32>) -> Seq<i32> {
    Seq::new(
        window.len(),
        |k: int|
            if k < frame.len() {
                frame[frame.len() - 1 - k]
            } else {
                window[k - frame.len()]
            },
    )
}

/// The last `BUFFER_SIZE` samples received, newest first.
pub struct SampleWindow {
    samples: Vec<i32>,
}

impl View for SampleWindow {
    type V = Seq<i32>;

    closed spec fn view(&self) -> Seq<i32> {
        self.samples@
    }
}

impl SampleWindow {
    /// A window of silence.
    pub fn new() -> (r: SampleWindow)
        ensures
            r@.len() == BUFFER_SIZE,
            forall|k: int| 0 <= k < BUFFER_SIZE ==> #[trigger] r@[k] == 0,
    {
        let mut samples: Vec<i32> = Vec::new();
        let mut k: usize = 0;
        while k < BUFFER_SIZE
            invariant
                k <= BUFFER_SIZE,
                samples@.len() == k,
                forall|j: int| 0 <= j < k ==> #[trigger] samples@[j] == 0,
            decreases BUFFER_SIZE - k,
        {
            samples.push(0);
            k = k + 1;
        }
        SampleWindow { samples }
    }

    /// The samples, newest first.
    pub fn samples(&self) -> (r: &[i32])
        ensures
            r@ == self@,
    {
        self.samples.as_slice()
    }

    /// Slides `frame` into the window.
    pub fn push_frame(&mut self, frame: &[i32])
        ensures
            final(self)@ == slide(old(self)@, frame@),
    {
        let n = self.samples.len();
        let f = frame.len();
        let mut out: Vec<i32> = Vec::new();
        let mut k: usize = 0;
        while k < n
            invariant
                n == self.samples@.len(),
                f == frame@.len(),
                k <= n,
                out@.len() == k,
                forall|j: int| 0 <= j < k ==> #[trigger] out@[j] == slide(self.samples@, frame@)[j],
            decreases n - k,
        {
            let s = if k < f {
                frame[f - 1 - k]
            } else {
                self.samples[k - f]
            };
            out.push(s);
            k = k + 1;
        }
        assert(out@ =~= slide(old(self)@, frame@));
        self.samples = out;
    }
}

/// The transform bin nearest to `freq` Hz: bins are `SAMPLE_RATE /
/// BUFFER_SIZE` Hz wide, and halves round up.
pub open spec fn bin_of(freq: int) -> int {
    (2 * freq * BUFFER_SIZE + SAMPLE_RATE) / (2 * SAMPLE_RATE)
}

/// Computes `bin_of`.
pub fn bin_index(freq: u16) -> (r: usize)
    ensures
        r == bin_of(freq as int),
{
    let x: u64 = (freq as u64) * 8192 + 44100;
    let q: u64 = x / (2 * SAMPLE_RATE);
    proof {
        lemma_div_is_ordered(x as int, 0x4000_0000, 88200);
    }
    q as usize
}

pub open spec fn seq_sum(s: Seq<u64>) -> int
    decreases s.len(),
{
    if s.len() == 0 {
        0
    } else {
        seq_sum(s.drop_last()) + s.last()
    }
}

/// The level of the band of bins `low..high`: the mean of their magnitudes
/// divided by the band's `eq` divisor, in thousandths, and at most
/// `LEVEL_CAP`.
pub open spec fn band_level_spec(mags: Seq<u64>, low: int, high: int, eq: int) -> int {
    let x = seq_sum(mags.subrange(low, high)) * LEVEL_SCALE / ((high - low) * eq);
    if x > LEVEL_CAP {
        LEVEL_CAP as int
    } else {
        x
    }
}

/// Computes `band_level_spec`.
pub fn band_level(mags: &[u64], low: usize, high: usize, eq: u64) -> (r: i64)
    requires
        low < high <= mags@.len(),
        high <= BUFFER_SIZE,
        0 < eq <= 0x1_0000_0000,
    ensures
        r == band_level_spec(mags@, low as int, high as int, eq as int),
        0 <= r <= LEVEL_CAP,
{
    let mut sum: u128 = 0;
    let mut k: usize = low;
    while k < high
        invariant
            low <= k <= high,
            high <= mags@.len(),
            high <= BUFFER_SIZE,
            sum == seq_sum(mags@.subrange(low as int, k as int)),
            sum <= (k - low) * 0x1_0000_0000_0000_0000,
        decreases high - k,
    {
        proof {
            let s = mags@.subrange(low as int, k as int + 1);
            assert(s.drop_last() =~= mags@.subrange(low as int, k as int));
        }
        sum = sum + mags[k] as u128;
        k = k + 1;
    }
    let count = (high - low) as u128;
    proof {
        assert(0 < count * eq <= 4096 * 0x1_0000_0000) by (nonlinear_arith)
            requires
                0 < count <= 4096,
                0 < eq <= 0x1_0000_0000,
        ;
        assert(sum <= 4096 * 0x1_0000_0000_0000_0000) by (nonlinear_arith)
            requires
                sum <= count * 0x1_0000_0000_0000_0000,
                count <= 4096,
        ;
    }
    let x: u128 = sum * 1000 / (count * eq as u128);
    if x > LEVEL_CAP as u128 {
        LEVEL_CAP
    } else {
        x as i64
    }
}

/// `x` held within `±STATE_CAP`.
pub open spec fn capped(x: int) -> int {
    if x < -STATE_CAP {
        -STATE_CAP as int
    } else if x > STATE_CAP {
        STATE_CAP as int
    } else {
        x
    }
}

/// `r` is the integer square root of `x`.
pub open spec fn is_root(r: int, x: int) -> bool {
    0 <= r && r * r <= x < (r + 1) * (r + 1)
}

/// A tick without a rise: the velocity falls by one unit and moves the value.
pub open spec fn fall(val: int, vel: int) -> (int, int) {
    let v = capped(vel - GRAVITY);
    (capped(val + v), v)
}

/// The byte shown for a value: the value held within 0..=255 units and
/// rounded to a whole unit (halves up).
pub open spec fn shown(val: int) -> u8 {
    if val <= 0 {
        0
    } else if val >= 255 * LEVEL_SCALE {
        255
    } else {
        ((val + 500) / (LEVEL_SCALE as int)) as u8
    }
}

/// The integer square root of `x`.
pub fn isqrt(x: u64) -> (r: u64)
    requires
        x < 0x4000_0000_0000_0000,
    ensures
        is_root(r as int, x as int),
{
    let mut lo: u64 = 0;
    let mut hi: u64 = 0x8000_0000;
    assert(0x8000_0000u64 * 0x8000_0000u64 == 0x4000_0000_0000_0000u64);
    while hi - lo > 1
        invariant
            lo < hi <= 0x8000_0000,
            lo * lo <= x < hi * hi,
        decreases hi - lo,
    {
        let mid = lo + (hi - lo) / 2;
        assert(mid * mid <= 0x8000_0000 * 0x8000_0000) by (nonlinear_arith)
            requires
                mid <= 0x8000_0000,
        ;
        if mid * mid <= x {
            lo = mid;
        } else {
            hi = mid;
        }
    }
    lo
}

/// The smoothing state of one frequency band: its bins, its divisor, and
/// its value and velocity in thousandths.
pub struct SpectrumState {
    clamped_val: u8,
    val: i64,
    velocity: i64,
    eq: u64,
    low: usize,
    high: usize,
}

impl SpectrumState {
    /// The byte that the band shows.
    pub closed spec fn shown_level(&self) -> u8 {
        self.clamped_val
    }

    /// The byte that the band shows.
    pub fn level(&self) -> (r: u8)
        ensures
            r == self.shown_level(),
    {
        self.clamped_val
    }

    pub closed spec fn val(&self) -> int {
        self.val as int
    }

    pub closed spec fn velocity(&self) -> int {
        self.velocity as int
    }

    pub closed spec fn eq(&self) -> int {
        self.eq as int
    }

    pub closed spec fn low(&self) -> int {
        self.low as int
    }

    pub closed spec fn high(&self) -> int {
        self.high as int
    }

    pub closed spec fn wf(&self) -> bool {
        &&& -STATE_CAP <= self.val <= STATE_CAP
        &&& -STATE_CAP <= self.velocity <= STATE_CAP
        &&& self.low < self.high <= BUFFER_SIZE / 2
        &&& 0 < self.eq <= 0x1_0000_0000
        &&& self.clamped_val == shown(self.val as int)
    }

    /// A band over the bins `low..high`, at rest.
    pub fn new(low: usize, high: usize, eq: u64) -> (r: SpectrumState)
        requires
            low < high <= BUFFER_SIZE / 2,
            0 < eq <= 0x1_0000_0000,
        ensures
            r.wf(),
            r.val() == 0,
            r.velocity() == 0,
            r.shown_level() == 0,
            r.low() == low,
            r.high() == high,
            r.eq() == eq,
    {
        SpectrumState { clamped_val: 0, val: 0, velocity: 0, eq, low, high }
    }

    /// One tick at band level `level`: the velocity falls by one unit, unless
    /// the level is above the value, in which case it becomes the square root
    /// of the difference; the value then moves by the velocity.
    pub fn update(&mut self, level: i64)
        requires
            old(self).wf(),
            0 <= level <= LEVEL_CAP,
        ensures
            final(self).wf(),
            final(self).low() == old(self).low(),
            final(self).high() == old(self).high(),
            final(self).eq() == old(self).eq(),
            level > old(self).val() ==> is_root(
                final(self).velocity(),
                (level - old(self).val()) * LEVEL_SCALE,
            ) && final(self).val() == capped(old(self).val() + final(self).velocity()),
            level <= old(self).val() ==> (final(self).val(), final(self).velocity()) == fall(
                old(self).val(),
                old(self).velocity(),
            ),
            final(self).shown_level() == shown(final(self).val()),
    {
        let v: i64 = if level > self.val {
            let r = isqrt(((level - self.val) * LEVEL_SCALE) as u64);
            proof {
                assert(r * r <= 0x4000_0000_0000_0000);
                assert(r <= 0x8000_0000) by (nonlinear_arith)
                    requires
                        r * r <= 0x4000_0000_0000_0000,
                        r >= 0,
                ;
            }
            r as i64
        } else {
            let fallen = self.velocity - GRAVITY;
            if fallen < -STATE_CAP {
                -STATE_CAP
            } else {
                fallen
            }
        };
        let moved = self.val + v;
        self.velocity = v;
        self.val = if moved < -STATE_CAP {
            -STATE_CAP
        } else if moved > STATE_CAP {
            STATE_CAP
        } else {
            moved
        };
        self.clamped_val = if self.val <= 0 {
            0
        } else if self.val >= 255 * LEVEL_SCALE {
            255
        } else {
            ((self.val + 500) / LEVEL_SCALE) as u8
        };
    }

    /// Takes this band's level from the transform's magnitudes and ticks.
    pub fn tick(&mut self, mags: &[u64]) -> (r: u8)
        requires
            old(self).wf(),
            mags@.len() >= BUFFER_SIZE / 2,
        ensures
            ticked(*old(self), mags@, *final(self)),
            r == final(self).shown_level(),
    {
        let level = band_level(mags, self.low, self.high, self.eq);
        self.update(level);
        self.clamped_val
    }
}

/// `new` is `old` after one tick on the magnitudes `mags`.
pub open spec fn ticked(old: SpectrumState, mags: Seq<u64>, new: SpectrumState) -> bool {
    let level = band_level_spec(mags, old.low(), old.high(), old.eq());
    &&& new.wf()
    &&& new.low() == old.low()
    &&& new.high() == old.high()
    &&& new.eq() == old.eq()
    &&& level > old.val() ==> is_root(new.velocity(), (level - old.val()) * LEVEL_SCALE)
        && new.val() == capped(old.val() + new.velocity())
    &&& level <= old.val() ==> (new.val(), new.velocity()) == fall(old.val(), old.velocity())
    &&& new.shown_level() == shown(new.val())
}

/// `n` ticks in silence that bring no rise.
pub open spec fn silence(val: int, vel: int, n: nat) -> (int, int)
    decreases n,
{
    if n == 0 {
        (val, vel)
    } else {
        let p = silence(val, vel, (n - 1) as nat);
        fall(p.0, p.1)
    }
}

/// In silence a band that is not rising falls: its value does not grow and
/// its velocity stays at or below zero.
pub proof fn lemma_silence_falls(val: int, vel: int)
    requires
        0 <= val <= STATE_CAP,
        -STATE_CAP <= vel <= GRAVITY,
    ensures
        fall(val, vel).0 <= val,
        fall(val, vel).1 <= 0,
        -STATE_CAP <= fall(val, vel).1,
        -STATE_CAP <= fall(val, vel).0 <= STATE_CAP,
{
}

proof fn lemma_silence_bound(val: int, vel: int, k: nat)
    requires
        0 <= val <= STATE_CAP,
        -STATE_CAP <= vel <= GRAVITY,
    ensures
        -STATE_CAP <= silence(val, vel, k).0 <= STATE_CAP,
        -STATE_CAP <= silence(val, vel, k).1 <= STATE_CAP,
        (exists|j: nat| j <= k && #[trigger] silence(val, vel, j).0 <= 0) || (silence(val, vel, k).0
            <= val - 500 * k * (k - 1) && silence(val, vel, k).1 <= GRAVITY - GRAVITY * k),
    decreases k,
{
    if k > 0 {
        let k1 = (k - 1) as nat;
        lemma_silence_bound(val, vel, k1);
        let p = silence(val, vel, k1);
        let q = silence(val, vel, k);
        assert(q == fall(p.0, p.1));
        if exists|j: nat| j <= k1 && #[trigger] silence(val, vel, j).0 <= 0 {
            let j = choose|j: nat| j <= k1 && #[trigger] silence(val, vel, j).0 <= 0;
            assert(j <= k && silence(val, vel, j).0 <= 0);
        } else {
            assert(500 * k1 * (k1 - 1) + GRAVITY * k1 == 500 * k * (k - 1)) by (nonlinear_arith)
                requires
                    k1 == k - 1,
            ;
            assert(GRAVITY - GRAVITY * k1 - GRAVITY == GRAVITY - GRAVITY * k) by (nonlinear_arith)
                requires
                    k1 == k - 1,
            ;
            if q.0 > 0 {
                assert(q.0 <= val - 500 * k * (k - 1));
            } else {
                assert(silence(val, vel, k).0 <= 0);
            }
        }
    }
}

/// In silence a band reaches zero within `n` ticks once `500·n·(n−1)` (half
/// the gravity times `n·(n−1)`) is at least its value: in about the square
/// root of its value, in units, ticks. Until then each tick is a fall.
pub proof fn lemma_silence_reaches_zero(val: int, vel: int, n: nat)
    requires
        0 <= val <= STATE_CAP,
        -STATE_CAP <= vel <= GRAVITY,
        500 * n * (n - 1) >= val,
    ensures
        exists|j: nat| j <= n && #[trigger] silence(val, vel, j).0 <= 0,
{
    lemma_silence_bound(val, vel, n);
    if !(exists|j: nat| j <= n && #[trigger] silence(val, vel, j).0 <= 0) {
        assert(silence(val, vel, n).0 <= 0);
    }
}

/// The band level on `mags` is zero.
pub open spec fn silent_for(s: SpectrumState, mags: Seq<u64>) -> bool {
    band_level_spec(mags, s.low(), s.high(), s.eq()) == 0
}

/// `states` are the successive states of a band ticking on the magnitudes
/// `mags`, on each of which its level is zero.
pub open spec fn silent_run(states: Seq<SpectrumState>, mags: Seq<Seq<u64>>) -> bool {
    &&& states.len() == mags.len() + 1
    &&& states[0].wf()
    &&& forall|i: int|
        0 <= i < mags.len() ==> ticked(#[trigger] states[i], mags[i], states[i + 1]) && silent_for(
            states[i],
            mags[i],
        )
}

/// A state from which silence cannot brighten the band: below zero, or
/// falling no faster than one unit of gravity can stop.
pub open spec fn calm(s: SpectrumState) -> bool {
    s.val() < 0 || s.velocity() <= GRAVITY
}

proof fn lemma_shown_monotone(a: int, b: int)
    requires
        a <= b,
    ensures
        shown(a) <= shown(b),
{
    if 0 < a && b < 255 * LEVEL_SCALE {
        lemma_div_is_ordered(a + 500, b + 500, 1000);
    } else if 0 < a && a < 255 * LEVEL_SCALE {
        lemma_div_is_ordered(a + 500, 255_500int, 1000);
    }
}

/// One silent tick from a calm state: the state stays calm, the shown byte
/// does not grow, and a value at or above zero falls.
pub proof fn lemma_silent_step(s: SpectrumState, mags: Seq<u64>, t: SpectrumState)
    requires
        s.wf(),
        ticked(s, mags, t),
        silent_for(s, mags),
        calm(s),
    ensures
        t.wf(),
        calm(t),
        t.shown_level() <= s.shown_level(),
        s.val() >= 0 ==> t.val() <= s.val() && (t.val(), t.velocity()) == fall(
            s.val(),
            s.velocity(),
        ),
        s.val() <= 0 ==> t.shown_level() == 0,
{
    if s.val() >= 0 {
        lemma_silence_falls(s.val(), s.velocity());
        lemma_shown_monotone(t.val(), s.val());
    } else {
        let x = -s.val();
        let v = t.velocity();
        assert(v * v <= x * 1000);
        assert(1000 * (v - x) <= 250_000) by (nonlinear_arith)
            requires
                v * v <= x * 1000,
        ;
        assert(v - x >= 0 ==> v <= 1000) by (nonlinear_arith)
            requires
                v * v <= x * 1000,
                v >= 0,
        ;
        assert(t.val() == v - x);
        if t.val() > 0 {
            assert((t.val() + 500) / 1000 == 0);
        }
    }
}

proof fn lemma_silent_run_calm(states: Seq<SpectrumState>, mags: Seq<Seq<u64>>, k: int)
    requires
        silent_run(states, mags),
        calm(states[0]),
        0 <= k < states.len(),
    ensures
        states[k].wf(),
        calm(states[k]),
    decreases k,
{
    if k > 0 {
        lemma_silent_run_calm(states, mags, k - 1);
        assert(ticked(states[k - 1], mags[k - 1], states[k]));
        lemma_silent_step(states[k - 1], mags[k - 1], states[k]);
    }
}

/// In silence a calm band never brightens: the byte it shows never grows,
/// and while its value is at or above zero the value does not grow either.
pub proof fn lemma_silence_never_brightens(states: Seq<SpectrumState>, mags: Seq<Seq<u64>>)
    requires
        silent_run(states, mags),
        calm(states[0]),
    ensures
        forall|i: int, j: int|
            0 <= i <= j < states.len() ==> #[trigger] states[j].shown_level()
                <= #[trigger] states[i].shown_level(),
        forall|i: int|
            0 <= i < mags.len() && states[i].val() >= 0 ==> #[trigger] states[i + 1].val()
                <= states[i].val(),
{
    assert forall|i: int| 0 <= i < mags.len() implies states[i + 1].shown_level()
        <= states[i].shown_level() && (states[i].val() >= 0 ==> #[trigger] states[i + 1].val()
        <= states[i].val()) by {
        lemma_silent_run_calm(states, mags, i);
        assert(ticked(states[i], mags[i], states[i + 1]));
        lemma_silent_step(states[i], mags[i], states[i + 1]);
    }
    assert forall|i: int, j: int| 0 <= i <= j < states.len() implies #[trigger] states[j].shown_level()
        <= #[trigger] states[i].shown_level() by {
        lemma_shown_chain(states, mags, i, j);
    }
}

proof fn lemma_shown_chain(states: Seq<SpectrumState>, mags: Seq<Seq<u64>>, i: int, j: int)
    requires
        silent_run(states, mags),
        calm(states[0]),
        0 <= i <= j < states.len(),
    ensures
        states[j].shown_level() <= states[i].shown_level(),
    decreases j - i,
{
    if i < j {
        lemma_shown_chain(states, mags, i, j - 1);
        lemma_silent_run_calm(states, mags, j - 1);
        assert(ticked(states[j - 1], mags[j - 1], states[j]));
        lemma_silent_step(states[j - 1], mags[j - 1], states[j]);
    }
}

proof fn lemma_silent_run_follows(
    states: Seq<SpectrumState>,
    mags: Seq<Seq<u64>>,
    k: nat,
)
    requires
        silent_run(states, mags),
        0 <= states[0].val(),
        states[0].velocity() <= GRAVITY,
        k < states.len(),
    ensures
        (exists|j: int| 0 <= j <= k && #[trigger] states[j].val() <= 0) || (states[k as int].val(),
        states[k as int].velocity()) == silence(states[0].val(), states[0].velocity(), k),
    decreases k,
{
    if k > 0 {
        let k1 = (k - 1) as nat;
        lemma_silent_run_follows(states, mags, k1);
        if !(exists|j: int| 0 <= j <= k1 && #[trigger] states[j].val() <= 0) {
            lemma_silent_run_calm(states, mags, k1 as int);
            assert(ticked(states[k1 as int], mags[k1 as int], states[k as int]));
            lemma_silent_step(states[k1 as int], mags[k1 as int], states[k as int]);
        } else {
            let j = choose|j: int| 0 <= j <= k1 && #[trigger] states[j].val() <= 0;
            assert(0 <= j <= k && states[j].val() <= 0);
        }
    }
}

/// In silence a band goes dark within `n` ticks once `500·n·(n−1)` (half the
/// gravity times `n·(n−1)`) is at least its value, that is within about the
/// square root of its value in units, and it stays dark after that.
pub proof fn lemma_silence_goes_dark(states: Seq<SpectrumState>, mags: Seq<Seq<u64>>, n: nat)
    requires
        silent_run(states, mags),
        0 <= states[0].val(),
        states[0].velocity() <= GRAVITY,
        n < states.len(),
        500 * n * (n - 1) >= states[0].val(),
    ensures
        forall|k: int| n <= k < states.len() ==> #[trigger] states[k].shown_level() == 0,
{
    let v0 = states[0].val();
    let w0 = states[0].velocity();
    lemma_silence_reaches_zero(v0, w0, n);
    let j0 = choose|j: nat| j <= n && #[trigger] silence(v0, w0, j).0 <= 0;
    lemma_silent_run_follows(states, mags, j0);
    let j = if exists|j: int| 0 <= j <= j0 && #[trigger] states[j].val() <= 0 {
        choose|j: int| 0 <= j <= j0 && #[trigger] states[j].val() <= 0
    } else {
        j0 as int
    };
    assert(states[j].val() <= 0);
    lemma_silent_run_calm(states, mags, j);
    assert(states[j].shown_level() == 0);
    lemma_silence_never_brightens(states, mags);
    assert forall|k: int| n <= k < states.len() implies #[trigger] states[k].shown_level() == 0 by {
        assert(states[k].shown_level() <= states[j].shown_level());
    }
}

} // verus!
