//! Colors of the lights, the color map that turns a level into a color, and
//! the frame that the serial light strip reads.

use vstd::prelude::*;
use vstd::arithmetic::div_mod::{lemma_div_by_multiple, lemma_div_is_ordered};

verus! {

/// The number of lights, one per frequency band.
pub const NUM_LIGHTS: usize = 3;

/// One light: its intensity and its color.
#[derive(Clone, Copy, Debug, PartialEq, Eq, Structural)]
pub struct Color {
    pub i: u8,
    pub r: u8,
    pub g: u8,
    pub b: u8,
}

pub open spec fn dark() -> Color {
    Color { i: 0, r: 0, g: 0, b: 0 }
}

/// All lights off.
pub fn off() -> (r: [Color; NUM_LIGHTS])
    ensures
        forall|k: int| 0 <= k < NUM_LIGHTS ==> #[trigger] r@[k] == dark(),
{
    let d = Color { i: 0, r: 0, g: 0, b: 0 };
    [d, d, d]
}

/// The straight line from `a` (at 0) to `b` (at `span`), at `t`, rounded down.
pub open spec fn lerp(a: int, b: int, t: int, span: int) -> int {
    (a * (span - t) + b * t) / span
}

fn lerp_u8(a: u8, b: u8, t: u32, span: u32) -> (r: u8)
    requires
        0 < span <= 256,
        t <= span,
    ensures
        r == lerp(a as int, b as int, t as int, span as int),
{
    proof {
        assert(0 <= a * (span - t) <= 255 * (span - t)) by (nonlinear_arith)
            requires
                0 <= a <= 255,
                0 <= t <= span,
        ;
        assert(0 <= b * t <= 255 * t) by (nonlinear_arith)
            requires
                0 <= b <= 255,
                0 <= t,
        ;
    }
    let x: u32 = a as u32 * (span - t) + b as u32 * t;
    proof {
        lemma_div_is_ordered(x as int, 255 * span, span as int);
        lemma_div_by_multiple(255, span as int);
    }
    (x / span) as u8
}

/// The anchor of the color map at which segment `s` starts: five colors of
/// matplotlib's "inferno" map at 0, 64, 128, 192 and 255.
pub open spec fn anchor_index(s: int) -> int {
    if s < 4 {
        64 * s
    } else {
        255
    }
}

pub open spec fn anchor(s: int) -> (u8, u8, u8) {
    if s == 0 {
        (0, 0, 4)
    } else if s == 1 {
        (87, 16, 110)
    } else if s == 2 {
        (188, 55, 84)
    } else if s == 3 {
        (249, 142, 9)
    } else {
        (252, 255, 164)
    }
}

/// Entry `k` of the 256-entry color map: the anchors joined by straight lines.
pub open spec fn palette_entry(k: int) -> (u8, u8, u8) {
    let s = if k >= 192 {
        3
    } else {
        k / 64
    };
    let t = k - anchor_index(s);
    let span = anchor_index(s + 1) - anchor_index(s);
    let (a, b) = (anchor(s), anchor(s + 1));
    (
        lerp(a.0 as int, b.0 as int, t, span) as u8,
        lerp(a.1 as int, b.1 as int, t, span) as u8,
        lerp(a.2 as int, b.2 as int, t, span) as u8,
    )
}

/// A 256-entry color map, indexed by a light's level.
pub struct Palette {
    entries: Vec<(u8, u8, u8)>,
}

impl View for Palette {
    type V = Seq<(u8, u8, u8)>;

    closed spec fn view(&self) -> Seq<(u8, u8, u8)> {
        self.entries@
    }
}

fn anchor_exec(s: u32) -> (r: (u8, u8, u8))
    ensures
        r == anchor(s as int),
{
    if s == 0 {
        (0, 0, 4)
    } else if s == 1 {
        (87, 16, 110)
    } else if s == 2 {
        (188, 55, 84)
    } else if s == 3 {
        (249, 142, 9)
    } else {
        (252, 255, 164)
    }
}

impl Palette {
    /// An approximation of matplotlib's 256-entry "inferno" color map: five
    /// of its colors (at 0, 64, 128, 192 and 255) joined by straight lines,
    /// not the map's own table.
    pub fn inferno() -> (r: Palette)
        ensures
            r@.len() == 256,
            forall|k: int| 0 <= k < 256 ==> #[trigger] r@[k] == palette_entry(k),
    {
        let mut entries: Vec<(u8, u8, u8)> = Vec::new();
        let mut k: u32 = 0;
        while k < 256
            invariant
                k <= 256,
                entries@.len() == k,
                forall|j: int| 0 <= j < k ==> #[trigger] entries@[j] == palette_entry(j),
            decreases 256 - k,
        {
            let s: u32 = if k >= 192 {
                3
            } else {
                k / 64
            };
            let lo: u32 = 64 * s;
            let hi: u32 = if s + 1 < 4 {
                64 * (s + 1)
            } else {
                255
            };
            let a = anchor_exec(s);
            let b = anchor_exec(s + 1);
            let t = k - lo;
            let span = hi - lo;
            entries.push(
                (lerp_u8(a.0, b.0, t, span), lerp_u8(a.1, b.1, t, span), lerp_u8(a.2, b.2, t, span)),
            );
            k = k + 1;
        }
        Palette { entries }
    }

    /// The color of a light at `level`, which is also its intensity.
    pub fn color_at(&self, level: u8) -> (r: Color)
        requires
            self@.len() == 256,
        ensures
            r == (Color {
                i: level,
                r: self@[level as int].0,
                g: self@[level as int].1,
                b: self@[level as int].2,
            }),
    {
        let e = self.entries[level as usize];
        Color { i: level, r: e.0, g: e.1, b: e.2 }
    }
}

/// The number of LEDs of a GPIO strip that show one light.
pub const LEDS_PER_LIGHT: usize = 12;

/// The colors of a GPIO strip for `colors`: light `k` on LEDs `12k..12k+12`.
pub fn strip_leds(colors: &[Color; NUM_LIGHTS]) -> (r: Vec<(u8, u8, u8)>)
    ensures
        r@.len() == LEDS_PER_LIGHT * NUM_LIGHTS,
        forall|k: int|
            0 <= k < LEDS_PER_LIGHT * NUM_LIGHTS ==> #[trigger] r@[k] == (
                colors@[k / 12].r,
                colors@[k / 12].g,
                colors@[k / 12].b,
            ),
{
    let mut out: Vec<(u8, u8, u8)> = Vec::new();
    let mut k: usize = 0;
    while k < LEDS_PER_LIGHT * NUM_LIGHTS
        invariant
            k <= LEDS_PER_LIGHT * NUM_LIGHTS,
            out@.len() == k,
            colors@.len() == NUM_LIGHTS,
            forall|j: int|
                0 <= j < k ==> #[trigger] out@[j] == (
                    colors@[j / 12].r,
                    colors@[j / 12].g,
                    colors@[j / 12].b,
                ),
        decreases LEDS_PER_LIGHT * NUM_LIGHTS - k,
    {
        let c = colors[k / LEDS_PER_LIGHT];
        out.push((c.r, c.g, c.b));
        k = k + 1;
    }
    out
}

/// The number of strips that the serial frame feeds.
pub const NUM_STRIPS: usize = 3;

/// The number of colored segments of a strip.
pub const LIGHT_LENGTH_COLORS: usize = 8;

/// The bytes of one strip in a serial frame: the segments, then two markers.
pub const LIGHT_LENGTH_BYTES: usize = 26;

/// The size of a serial frame.
pub const SERIAL_FRAME_LEN: usize = 78;

/// Byte `k` of the serial frame for `colors`: strip `k / 26` shows light
/// `k / 26` on each of its eight segments as red, green, blue quartered, and
/// ends with two 0xFF markers.
pub open spec fn serial_byte(colors: Seq<Color>, k: int) -> u8 {
    let c = colors[k / 26];
    let off = k % 26;
    if off >= 24 {
        255
    } else if off % 3 == 0 {
        (c.r / 4) as u8
    } else if off % 3 == 1 {
        (c.g / 4) as u8
    } else {
        (c.b / 4) as u8
    }
}

/// The 78-byte frame that the serial light strip reads for `colors`.
pub fn serial_frame(colors: &[Color; NUM_LIGHTS]) -> (r: Vec<u8>)
    ensures
        r@.len() == SERIAL_FRAME_LEN,
        forall|k: int| 0 <= k < SERIAL_FRAME_LEN ==> #[trigger] r@[k] == serial_byte(colors@, k),
{
    let mut out: Vec<u8> = Vec::new();
    let mut k: usize = 0;
    while k < SERIAL_FRAME_LEN
        invariant
            k <= SERIAL_FRAME_LEN,
            out@.len() == k,
            colors@.len() == NUM_LIGHTS,
            forall|j: int| 0 <= j < k ==> #[trigger] out@[j] == serial_byte(colors@, j),
        decreases SERIAL_FRAME_LEN - k,
    {
        let c = colors[k / LIGHT_LENGTH_BYTES];
        let off = k % LIGHT_LENGTH_BYTES;
        let byte: u8 = if off >= 24 {
            255
        } else if off % 3 == 0 {
            c.r / 4
        } else if off % 3 == 1 {
            c.g / 4
        } else {
            c.b / 4
        };
        out.push(byte);
        k = k + 1;
    }
    out
}

} // verus!
