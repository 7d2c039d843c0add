//! The sources of colors and the arbiter that gives the lights to one of
//! them at each tick.

use vstd::prelude::*;
use vstd::arithmetic::div_mod::lemma_fundamental_div_mod_converse;
use crate::color::{dark, off, Color, Palette, NUM_LIGHTS, palette_entry};
use crate::spectrum::{
    bin_index, bin_of, slide, ticked, SampleWindow, SpectrumState, BUFFER_SIZE,
};

verus! {

/// A source of colors for the lights.
pub trait Controller {
    /// Whether it wants the lights now.
    spec fn wants_lights(&self) -> bool;

    /// Whether it wants the lights now.
    fn is_active(&self) -> (r: bool)
        ensures
            r == self.wants_lights(),
    ;

    /// Its colors for this tick.
    fn tick(&mut self) -> [Color; NUM_LIGHTS];
}

/// The fallback source: always wants the lights, and keeps them off.
pub struct BlankController;

impl BlankController {
    pub fn new() -> (r: BlankController)
        ensures
            r.active(),
    {
        BlankController
    }

    /// It always wants the lights.
    pub open spec fn active(&self) -> bool {
        true
    }

    /// Whether it wants the lights: always.
    pub fn is_active(&self) -> (r: bool)
        ensures
            r == self.active(),
            r,
    {
        true
    }

    /// Its colors for a tick: all off.
    pub fn colors(&self) -> (r: [Color; NUM_LIGHTS])
        ensures
            forall|k: int| 0 <= k < NUM_LIGHTS ==> #[trigger] r@[k] == dark(),
    {
        off()
    }
}

impl Controller for BlankController {
    open spec fn wants_lights(&self) -> bool {
        true
    }

    fn is_active(&self) -> (r: bool) {
        BlankController::is_active(self)
    }

    fn tick(&mut self) -> [Color; NUM_LIGHTS] {
        self.colors()
    }
}

/// The fallback source: always active, all lights off.
pub fn setup_blank() -> (r: BlankController)
    ensures
        r.active(),
{
    BlankController::new()
}

/// A controller's place in the priority order; lower is first.
#[derive(Clone, Copy, Debug, PartialEq, Eq, Structural, PartialOrd, Ord, Hash)]
pub struct Token {
    priority: u8,
}

impl Token {
    pub fn new(unique_priority: u8) -> (r: Token)
        ensures
            r.priority() == unique_priority,
    {
        Token { priority: unique_priority }
    }

    pub closed spec fn priority(&self) -> u8 {
        self.priority
    }
}

/// `i` is the first index at which `active` holds.
pub open spec fn is_first_active(active: Seq<bool>, i: int) -> bool {
    0 <= i < active.len() && active[i] && forall|j: int| 0 <= j < i ==> !#[trigger] active[j]
}

/// The first controller, in priority order, that wants the lights.
pub fn first_active(active: &[bool]) -> (r: Option<usize>)
    ensures
        r matches Some(i) ==> is_first_active(active@, i as int),
        r is None ==> forall|j: int| 0 <= j < active@.len() ==> !#[trigger] active@[j],
{
    let mut i: usize = 0;
    while i < active.len()
        invariant
            i <= active@.len(),
            forall|j: int| 0 <= j < i ==> !#[trigger] active@[j],
        decreases active@.len() - i,
    {
        if active[i] {
            return Some(i);
        }
        i = i + 1;
    }
    None
}

/// What the arbiter decided for one tick.
#[derive(Clone, Copy, Debug, PartialEq, Eq, Structural)]
pub struct Choice {
    /// The controller that gets the lights, if any wants them.
    pub index: Option<usize>,
    /// Whether it differs from the one that had them before.
    pub takeover: bool,
}

/// Gives the lights, at each tick, to the first controller in priority order
/// that wants them, and notices when that changes.
pub struct Arbiter {
    owner: Option<usize>,
}

impl Arbiter {
    pub fn new() -> (r: Arbiter)
        ensures
            r.owner() is None,
    {
        Arbiter { owner: None }
    }

    /// The controller that had the lights last.
    pub closed spec fn owner(&self) -> Option<usize> {
        self.owner
    }

    /// The controller that had the lights last.
    pub fn current(&self) -> (r: Option<usize>)
        ensures
            r == self.owner(),
    {
        self.owner
    }

    /// Decides a tick: `active[i]` tells whether controller `i` (in priority
    /// order) wants the lights. The first that does gets them.
    pub fn select(&mut self, active: &[bool]) -> (r: Choice)
        ensures
            r.index matches Some(i) ==> is_first_active(active@, i as int),
            r.index is None ==> forall|j: int| 0 <= j < active@.len() ==> !#[trigger] active@[j],
            r.takeover == (r.index is Some && r.index != old(self).owner()),
            final(self).owner() == if r.index is Some {
                r.index
            } else {
                old(self).owner()
            },
    {
        let index = first_active(active);
        let takeover = match index {
            Some(i) => match self.owner {
                Some(o) => o != i,
                None => true,
            },
            None => false,
        };
        if index.is_some() {
            self.owner = index;
        }
        Choice { index, takeover }
    }
}

/// Whether each controller wants the lights.
pub open spec fn active_mask<C: Controller>(cs: Seq<C>) -> Seq<bool> {
    cs.map_values(|c: C| c.wants_lights())
}

/// One display tick over `controllers`, in priority order: each is asked
/// whether it wants the lights, the arbiter gives them to the first that
/// does, and that one alone ticks. Returns the arbiter's choice and the
/// colors for the lights.
pub fn display_tick<C: Controller>(arbiter: &mut Arbiter, controllers: &mut Vec<C>) -> (r: (
    Choice,
    Option<[Color; NUM_LIGHTS]>,
))
    ensures
        r.0.index matches Some(i) ==> is_first_active(active_mask(old(controllers)@), i as int),
        r.0.index is None ==> forall|j: int|
            0 <= j < old(controllers)@.len() ==> !#[trigger] old(controllers)@[j].wants_lights(),
        r.0.takeover == (r.0.index is Some && r.0.index != old(arbiter).owner()),
        final(arbiter).owner() == if r.0.index is Some {
            r.0.index
        } else {
            old(arbiter).owner()
        },
        r.1 is Some <==> r.0.index is Some,
        final(controllers)@.len() == old(controllers)@.len(),
        forall|j: int|
            0 <= j < old(controllers)@.len() && Some(j as usize) != r.0.index ==> #[trigger] final(controllers)@[j] == old(controllers)@[j],
{
    let mut active: Vec<bool> = Vec::new();
    let mut j: usize = 0;
    while j < controllers.len()
        invariant
            j <= controllers@.len(),
            controllers@ == old(controllers)@,
            active@ == active_mask(controllers@).subrange(0, j as int),
        decreases controllers@.len() - j,
    {
        let a = controllers[j].is_active();
        active.push(a);
        j = j + 1;
        assert(active@ =~= active_mask(controllers@).subrange(0, j as int));
    }
    assert(active@ =~= active_mask(old(controllers)@));
    let choice = arbiter.select(active.as_slice());
    match choice.index {
        None => {
            assert forall|j: int| 0 <= j < old(controllers)@.len() implies !#[trigger] old(controllers)@[j].wants_lights() by {
                assert(active@[j] == old(controllers)@[j].wants_lights());
            }
            (choice, None)
        },
        Some(i) => {
            let mut c = controllers.remove(i);
            let colors = c.tick();
            controllers.insert(i, c);
            (choice, Some(colors))
        },
    }
}

/// The number of reconnections the music source tries before it gives up.
pub const NUM_RETRIES: usize = 5;

/// Counts the failed connection attempts in a row.
pub struct RetryPolicy {
    retries: usize,
}

impl RetryPolicy {
    pub fn new() -> (r: RetryPolicy)
        ensures
            r.retries() == 0,
    {
        RetryPolicy { retries: 0 }
    }

    pub closed spec fn retries(&self) -> nat {
        self.retries as nat
    }

    /// Records an attempt and tells whether to try again: a connection resets
    /// the count, a failure adds one, and after `NUM_RETRIES`
    /// failures in a row it is time to give up.
    pub fn record(&mut self, connected: bool) -> (r: bool)
        requires
            old(self).retries() < NUM_RETRIES,
        ensures
            final(self).retries() == if connected {
                0
            } else {
                old(self).retries() + 1
            },
            r == (final(self).retries() < NUM_RETRIES),
    {
        if connected {
            self.retries = 0;
        } else {
            self.retries = self.retries + 1;
        }
        self.retries < NUM_RETRIES
    }
}

pub const BAS_FREQ_LOW: u16 = 1;
pub const BAS_FREQ_HIGH: u16 = 600;
pub const MID_FREQ_LOW: u16 = 500;
pub const MID_FREQ_HIGH: u16 = 2500;
pub const TRE_FREQ_LOW: u16 = 2000;
pub const TRE_FREQ_HIGH: u16 = 20000;

/// The divisors that balance the bands against each other.
pub const BAS_EQ: u64 = 5000;
pub const MID_EQ: u64 = 1500;
pub const TRE_EQ: u64 = 200;

/// How many ticks without a new frame the music source keeps the lights.
pub const ACTIVE_TICKS: usize = 10;

/// The bins of the default bands: bass 0..56, mid 46..232, treble 186..1858.
pub proof fn lemma_band_bins()
    ensures
        bin_of(BAS_FREQ_LOW as int) == 0 && bin_of(BAS_FREQ_HIGH as int) == 56,
        bin_of(MID_FREQ_LOW as int) == 46 && bin_of(MID_FREQ_HIGH as int) == 232,
        bin_of(TRE_FREQ_LOW as int) == 186 && bin_of(TRE_FREQ_HIGH as int) == 1858,
{
    assert(bin_of(1) == 52292int / 88200);
    lemma_fundamental_div_mod_converse(52292, 88200, 0, 52292);
    assert(bin_of(600) == 4959300int / 88200);
    lemma_fundamental_div_mod_converse(4959300, 88200, 56, 20100);
    assert(bin_of(500) == 4140100int / 88200);
    lemma_fundamental_div_mod_converse(4140100, 88200, 46, 82900);
    assert(bin_of(2500) == 20524100int / 88200);
    lemma_fundamental_div_mod_converse(20524100, 88200, 232, 61700);
    assert(bin_of(2000) == 16428100int / 88200);
    lemma_fundamental_div_mod_converse(16428100, 88200, 186, 22900);
    assert(bin_of(20000) == 163884100int / 88200);
    lemma_fundamental_div_mod_converse(163884100, 88200, 1858, 8500);
}

/// The colors of the bands at their shown levels.
pub open spec fn band_color(level: u8) -> Color {
    let e = palette_entry(level as int);
    Color { i: level, r: e.0, g: e.1, b: e.2 }
}

/// The music-driven source, apart from the transform: the sample window
/// that feeds it, the three bands (bass, mid, treble) taken from its
/// magnitudes, and how long ago a frame came.
pub struct MusicController {
    window: SampleWindow,
    bass: SpectrumState,
    mid: SpectrumState,
    treble: SpectrumState,
    palette: Palette,
    current_color: [Color; NUM_LIGHTS],
    ticks_since_new_frame: usize,
}

impl MusicController {
    pub closed spec fn wf(&self) -> bool {
        &&& self.window@.len() == BUFFER_SIZE
        &&& self.bass.wf()
        &&& self.mid.wf()
        &&& self.treble.wf()
        &&& self.palette@.len() == 256
        &&& forall|k: int| 0 <= k < 256 ==> #[trigger] self.palette@[k] == palette_entry(k)
    }

    pub closed spec fn window_view(&self) -> Seq<i32> {
        self.window@
    }

    pub closed spec fn bands(&self) -> Seq<SpectrumState> {
        seq![self.bass, self.mid, self.treble]
    }

    pub closed spec fn colors(&self) -> Seq<Color> {
        self.current_color@
    }

    pub closed spec fn idle_ticks(&self) -> nat {
        self.ticks_since_new_frame as nat
    }

    /// A music source that has heard nothing: a silent window, bands at rest
    /// over the bins of 1–600 Hz, 500–2500 Hz and 2000–20000 Hz, lights off,
    /// and no frame seen for as long as can be counted.
    pub fn new() -> (r: MusicController)
        ensures
            r.wf(),
            r.window_view().len() == BUFFER_SIZE,
            forall|k: int| 0 <= k < BUFFER_SIZE ==> #[trigger] r.window_view()[k] == 0,
            forall|k: int| 0 <= k < 3 ==> #[trigger] r.bands()[k].wf(),
            r.bands()[0].low() == bin_of(BAS_FREQ_LOW as int) && r.bands()[0].high() == bin_of(
                BAS_FREQ_HIGH as int,
            ) && r.bands()[0].eq() == BAS_EQ,
            r.bands()[1].low() == bin_of(MID_FREQ_LOW as int) && r.bands()[1].high() == bin_of(
                MID_FREQ_HIGH as int,
            ) && r.bands()[1].eq() == MID_EQ,
            r.bands()[2].low() == bin_of(TRE_FREQ_LOW as int) && r.bands()[2].high() == bin_of(
                TRE_FREQ_HIGH as int,
            ) && r.bands()[2].eq() == TRE_EQ,
            forall|k: int| #![trigger r.bands()[k]] 0 <= k < 3 ==> r.bands()[k].val() == 0 && r.bands()[k].velocity() == 0,
            forall|k: int| 0 <= k < NUM_LIGHTS ==> #[trigger] r.colors()[k] == dark(),
            r.idle_ticks() == usize::MAX,
    {
        proof {
            lemma_band_bins();
        }
        let bass = SpectrumState::new(bin_index(BAS_FREQ_LOW), bin_index(BAS_FREQ_HIGH), BAS_EQ);
        let mid = SpectrumState::new(bin_index(MID_FREQ_LOW), bin_index(MID_FREQ_HIGH), MID_EQ);
        let treble = SpectrumState::new(bin_index(TRE_FREQ_LOW), bin_index(TRE_FREQ_HIGH), TRE_EQ);
        MusicController {
            window: SampleWindow::new(),
            bass,
            mid,
            treble,
            palette: Palette::inferno(),
            current_color: off(),
            ticks_since_new_frame: usize::MAX,
        }
    }

    /// Whether the source wants the lights: a frame is waiting, or one came
    /// within the last `ACTIVE_TICKS` ticks.
    pub fn is_active(&self, has_new_frame: bool) -> (r: bool)
        ensures
            r == (has_new_frame || self.idle_ticks() < ACTIVE_TICKS),
    {
        has_new_frame || self.ticks_since_new_frame < ACTIVE_TICKS
    }

    /// The window of samples, newest first, for the transform.
    pub fn window(&self) -> (r: &[i32])
        ensures
            r@ == self.window_view(),
    {
        self.window.samples()
    }

    /// Slides a new frame into the window.
    pub fn push_frame(&mut self, frame: &[i32])
        requires
            old(self).wf(),
        ensures
            final(self).wf(),
            final(self).window_view() == slide(old(self).window_view(), frame@),
            final(self).window_view().len() == BUFFER_SIZE,
            final(self).bands() == old(self).bands(),
            final(self).colors() == old(self).colors(),
            final(self).idle_ticks() == old(self).idle_ticks(),
    {
        self.window.push_frame(frame);
    }

    /// A tick with a new frame, once the transform of the window gave the
    /// magnitudes `mags` of its first `BUFFER_SIZE / 2` bins: each band ticks
    /// on them, and each light takes the color of its band's level.
    pub fn apply_spectrum(&mut self, mags: &[u64]) -> (r: [Color; NUM_LIGHTS])
        requires
            old(self).wf(),
            mags@.len() >= BUFFER_SIZE / 2,
        ensures
            final(self).wf(),
            forall|k: int|
                0 <= k < 3 ==> ticked(
                    #[trigger] old(self).bands()[k],
                    mags@,
                    final(self).bands()[k],
                ),
            forall|k: int|
                0 <= k < NUM_LIGHTS ==> #[trigger] r@[k] == band_color(
                    final(self).bands()[k].shown_level(),
                ),
            final(self).colors() == r@,
            final(self).idle_ticks() == 0,
            final(self).window_view() == old(self).window_view(),
    {
        let b = self.bass.tick(mags);
        let m = self.mid.tick(mags);
        let t = self.treble.tick(mags);
        let colors = [
            self.palette.color_at(b),
            self.palette.color_at(m),
            self.palette.color_at(t),
        ];
        self.current_color = colors;
        self.ticks_since_new_frame = 0;
        colors
    }

    /// A tick without a new frame: the colors stay.
    pub fn idle_tick(&mut self) -> (r: [Color; NUM_LIGHTS])
        requires
            old(self).wf(),
        ensures
            final(self).wf(),
            r@ == old(self).colors(),
            final(self).colors() == old(self).colors(),
            final(self).bands() == old(self).bands(),
            final(self).window_view() == old(self).window_view(),
            final(self).idle_ticks() == if old(self).idle_ticks() < usize::MAX {
                old(self).idle_ticks() + 1
            } else {
                old(self).idle_ticks()
            },
    {
        self.ticks_since_new_frame = self.ticks_since_new_frame.saturating_add(1);
        self.current_color
    }
}

/// The music source, apart from the task that feeds it frames.
pub fn setup_music() -> (r: MusicController)
    ensures
        r.wf(),
        r.window_view().len() == BUFFER_SIZE,
        forall|k: int| 0 <= k < BUFFER_SIZE ==> #[trigger] r.window_view()[k] == 0,
        forall|k: int| 0 <= k < 3 ==> #[trigger] r.bands()[k].wf(),
        r.bands()[0].low() == bin_of(BAS_FREQ_LOW as int) && r.bands()[0].high() == bin_of(
            BAS_FREQ_HIGH as int,
        ) && r.bands()[0].eq() == BAS_EQ,
        r.bands()[1].low() == bin_of(MID_FREQ_LOW as int) && r.bands()[1].high() == bin_of(
            MID_FREQ_HIGH as int,
        ) && r.bands()[1].eq() == MID_EQ,
        r.bands()[2].low() == bin_of(TRE_FREQ_LOW as int) && r.bands()[2].high() == bin_of(
            TRE_FREQ_HIGH as int,
        ) && r.bands()[2].eq() == TRE_EQ,
        forall|k: int| #![trigger r.bands()[k]] 0 <= k < 3 ==> r.bands()[k].val() == 0 && r.bands()[k].velocity() == 0,
        forall|k: int| 0 <= k < NUM_LIGHTS ==> #[trigger] r.colors()[k] == dark(),
        r.idle_ticks() == usize::MAX,
{
    MusicController::new()
}

} // verus!
