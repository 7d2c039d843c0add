use snap_lights::color::{off, serial_frame, Color, Palette, NUM_LIGHTS};
use snap_lights::controller::{
    display_tick, first_active, setup_blank, setup_music, Arbiter, BlankController, Controller, RetryPolicy,
    Token, NUM_RETRIES,
};
use snap_lights::spectrum::{band_level, bin_index, isqrt, SampleWindow, SpectrumState, BUFFER_SIZE};

#[test]
fn arbiter_picks_first_active() {
    assert_eq!(first_active(&[false, true, true]), Some(1));
    assert_eq!(first_active(&[true, false, true]), Some(0));
    assert_eq!(first_active(&[false, false]), None);
    assert_eq!(first_active(&[]), None);
}

#[test]
fn arbiter_reports_takeover() {
    let mut a = Arbiter::new();
    let c = a.select(&[false, true]);
    assert_eq!((c.index, c.takeover), (Some(1), true));
    let c = a.select(&[false, true]);
    assert_eq!((c.index, c.takeover), (Some(1), false));
    let c = a.select(&[true, true]);
    assert_eq!((c.index, c.takeover), (Some(0), true));
    let c = a.select(&[false, false]);
    assert_eq!((c.index, c.takeover), (None, false));
    assert_eq!(a.current(), Some(0));
}

#[test]
fn blank_is_active_and_off() {
    let mut b = BlankController::new();
    assert!(b.is_active());
    assert!(Controller::is_active(&b));
    let colors = b.tick();
    for c in colors.iter() {
        assert_eq!(*c, Color { i: 0, r: 0, g: 0, b: 0 });
    }
    let mut s = setup_blank();
    assert_eq!(s.tick(), off());
}

#[test]
fn token_orders_by_priority() {
    assert!(Token::new(1) < Token::new(2));
    assert_eq!(Token::new(3), Token::new(3));
}

#[test]
fn retries_then_gives_up() {
    // five failures in a row end the attempts
    let mut p = RetryPolicy::new();
    for _ in 0..NUM_RETRIES - 1 {
        assert!(p.record(false));
    }
    assert!(!p.record(false));
    let mut p = RetryPolicy::new();
    assert!(p.record(false));
    assert!(p.record(true));
    for _ in 0..NUM_RETRIES - 1 {
        assert!(p.record(false));
    }
    assert!(!p.record(false));
}

#[test]
fn gravity_decays_in_silence() {
    let mut s = SpectrumState::new(0, 4, 1);
    s.update(100_000);
    // a rise of sqrt(100 units) = 10 units
    assert_eq!(s.level(), 10);
    let mut prev = i64::MAX;
    let mut s = SpectrumState::new(0, 4, 1);
    // rise to a high value first
    for _ in 0..200 {
        s.update(200_000);
    }
    assert!(s.level() > 150);
    let mut ticks = 0;
    let mut levels = Vec::new();
    loop {
        s.update(0);
        ticks += 1;
        levels.push(s.level() as i64);
        if s.level() == 0 || ticks > 1000 {
            break;
        }
    }
    for l in levels.iter() {
        assert!(*l <= prev);
        prev = *l;
    }
    // about sqrt(2 * 200) ticks
    assert!(ticks <= 30, "took {} ticks", ticks);
}

#[test]
fn gravity_rise_is_square_root() {
    let mut s = SpectrumState::new(0, 4, 1);
    s.update(9_000);
    // sqrt(9 units) = 3 units
    assert_eq!(s.level(), 3);
    assert_eq!(isqrt(9_000_000), 3000);
    assert_eq!(isqrt(8_999_999), 2999);
    // 2.5 units rounds up, 2.499 down
    let mut s = SpectrumState::new(0, 4, 1);
    s.update(6_250);
    assert_eq!(s.level(), 3);
    let mut s = SpectrumState::new(0, 4, 1);
    s.update(6_249);
    assert_eq!(s.level(), 2);
}

#[test]
fn band_ranges() {
    assert_eq!(bin_index(1), 0);
    assert_eq!(bin_index(600), 56);
    assert_eq!(bin_index(500), 46);
    assert_eq!(bin_index(2500), 232);
    assert_eq!(bin_index(2000), 186);
    assert_eq!(bin_index(20000), 1858);
}

#[test]
fn band_level_mean_and_eq() {
    let mags = vec![10u64, 20, 30, 40];
    // mean of 20 and 30 is 25, over a divisor of 5 gives 5 units
    assert_eq!(band_level(&mags, 1, 3, 5), 5_000);
    assert_eq!(band_level(&mags, 0, 4, 1), 25_000);
}

#[test]
fn window_slides_newest_first() {
    let mut w = SampleWindow::new();
    w.push_frame(&[1, 2, 3]);
    w.push_frame(&[4, 5]);
    let s = w.samples();
    assert_eq!(s.len(), BUFFER_SIZE);
    assert_eq!(&s[..6], &[5, 4, 3, 2, 1, 0]);
    let big: Vec<i32> = (0..5000).collect();
    w.push_frame(&big);
    assert_eq!(w.samples()[0], 4999);
    assert_eq!(w.samples()[BUFFER_SIZE - 1], 4999 - (BUFFER_SIZE as i32 - 1));
}

#[test]
fn palette_ends() {
    let p = Palette::inferno();
    assert_eq!(p.color_at(0), Color { i: 0, r: 0, g: 0, b: 4 });
    assert_eq!(p.color_at(64), Color { i: 64, r: 87, g: 16, b: 110 });
    assert_eq!(p.color_at(255), Color { i: 255, r: 252, g: 255, b: 164 });
    assert_eq!(p.color_at(32), Color { i: 32, r: 43, g: 8, b: 57 });
}

#[test]
fn serial_frame_layout() {
    let colors = [
        Color { i: 1, r: 255, g: 8, b: 4 },
        Color { i: 2, r: 0, g: 3, b: 100 },
        Color { i: 3, r: 40, g: 40, b: 40 },
    ];
    let f = serial_frame(&colors);
    assert_eq!(f.len(), 78);
    assert_eq!(&f[0..3], &[63, 2, 1]);
    assert_eq!(&f[21..26], &[63, 2, 1, 255, 255]);
    assert_eq!(&f[26..29], &[0, 0, 25]);
    assert_eq!(&f[75..78], &[10, 255, 255]);
}

#[test]
fn music_controller_ticks() {
    let mut m = setup_music();
    assert!(!m.is_active(false));
    assert!(m.is_active(true));
    m.push_frame(&[1, 2, 3]);
    assert_eq!(&m.window()[..3], &[3, 2, 1]);
    let mut mags = vec![0u64; BUFFER_SIZE / 2];
    for k in 46..232 {
        mags[k] = 1_500_000;
    }
    let colors = m.apply_spectrum(&mags);
    assert_eq!(colors.len(), NUM_LIGHTS);
    // mid: mean 1.5e6 over 1500 = 1000 units, first rise sqrt(1000) = 31.6, shown as 32
    assert_eq!(colors[1].i, 32);
    assert!(colors[1].i > colors[0].i && colors[1].i > colors[2].i);
    assert!(m.is_active(false));
    for _ in 0..10 {
        assert_eq!(m.idle_tick(), colors);
    }
    assert!(!m.is_active(false));
}

#[test]
fn gpio_strip_layout() {
    let colors = [
        Color { i: 1, r: 1, g: 2, b: 3 },
        Color { i: 2, r: 4, g: 5, b: 6 },
        Color { i: 3, r: 7, g: 8, b: 9 },
    ];
    let leds = snap_lights::color::strip_leds(&colors);
    assert_eq!(leds.len(), 36);
    assert_eq!(leds[0], (1, 2, 3));
    assert_eq!(leds[11], (1, 2, 3));
    assert_eq!(leds[12], (4, 5, 6));
    assert_eq!(leds[35], (7, 8, 9));
}

struct Fixed {
    active: bool,
    ticks: u32,
    level: u8,
}

impl Controller for Fixed {
    fn wants_lights(&self) -> bool {
        self.active
    }

    fn is_active(&self) -> bool {
        self.active
    }

    fn tick(&mut self) -> [Color; NUM_LIGHTS] {
        self.ticks += 1;
        [Color { i: self.level, r: self.level, g: 0, b: 0 }; NUM_LIGHTS]
    }
}

#[test]
fn display_tick_runs_first_active_only() {
    let mut arbiter = Arbiter::new();
    let mut cs = vec![
        Fixed { active: false, ticks: 0, level: 1 },
        Fixed { active: true, ticks: 0, level: 2 },
        Fixed { active: true, ticks: 0, level: 3 },
    ];
    let (choice, colors) = display_tick(&mut arbiter, &mut cs);
    assert_eq!(choice.index, Some(1));
    assert!(choice.takeover);
    assert_eq!(colors.unwrap()[0].i, 2);
    assert_eq!((cs[0].ticks, cs[1].ticks, cs[2].ticks), (0, 1, 0));
    cs[0].active = true;
    let (choice, colors) = display_tick(&mut arbiter, &mut cs);
    assert_eq!((choice.index, choice.takeover), (Some(0), true));
    assert_eq!(colors.unwrap()[0].i, 1);
    for c in cs.iter_mut() {
        c.active = false;
    }
    let (choice, colors) = display_tick(&mut arbiter, &mut cs);
    assert_eq!(choice.index, None);
    assert!(colors.is_none());
}
