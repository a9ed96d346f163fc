use wavesuit::color::Color;
use wavesuit::disco::Disco;
use wavesuit::geometry::{physical_index, staggered_index, Bounds};
use wavesuit::params::PainterParams;
use wavesuit::show::{Runnable, Show};
use wavesuit::sweep::SweepPainter;

fn params(painter: &str) -> PainterParams {
    PainterParams {
        painter: String::from(painter),
        global_brightness: 0,
        speed: 1000,
        color: Color { r: 9, g: 8, b: 7 },
        secondary_colors: vec![Color { r: 1, g: 2, b: 3 }],
        fade: 500,
        bidirectional: false,
        fade_after: false,
        color_index: 0,
        belt_only: false,
    }
}

#[test]
fn largest_panel() {
    let b = Bounds { height: 4096, width: 4096 };
    assert_eq!(b.size(), 4096 * 4096);
    assert_eq!(physical_index(4096, 4095, 0), 4096 * 4096 - 1);
    assert_eq!(physical_index(4096, 4094, 4095), 4096 * 4095 - 1);
    assert_eq!(staggered_index(4096, 4095, 8191), 4095 * 4096);
}

#[test]
fn zero_brightness_darkens_everything() {
    let mut p = params("sweep");
    p.apply_dimming();
    assert_eq!(p.color, Color { r: 0, g: 0, b: 0 });
    assert_eq!(p.secondary_colors, vec![Color { r: 0, g: 0, b: 0 }]);
}

#[test]
fn sweep_without_bidirectional_keeps_direction() {
    let mut s = SweepPainter::new(1, 1, params("sweep"));
    // Height 1: the clock starts over every other frame.
    s.paint();
    assert_eq!(s.tick, 1);
    s.paint();
    assert_eq!(s.tick, 0);
    assert!(!s.flip);
}

#[test]
fn sweep_at_speed_zero_stands_still() {
    let mut p = params("sweep");
    p.speed = 0;
    let mut s = SweepPainter::new(2, 3, p);
    for _ in 0..5 {
        s.paint();
    }
    assert_eq!(s.tick, 0);
    assert_eq!(s.get(0), Color { r: 9, g: 8, b: 7 });
}

#[test]
fn disco_clock_saturates() {
    let mut d = Disco::new(Bounds { height: 1, width: 2 }, params("disco"));
    d.tick = u64::MAX;
    d.paint();
    assert_eq!(d.tick, u64::MAX);
    let beat = (1000u128 * u64::MAX as u128 * 65) / 1_000_000;
    assert_eq!(d.last_beat, beat);
}

#[test]
fn disco_fades_between_beats() {
    let mut p = params("disco");
    p.secondary_colors = vec![Color { r: 100, g: 0, b: 0 }, Color { r: 0, g: 0, b: 100 }];
    let mut d = Disco::new(Bounds { height: 1, width: 2 }, p);
    for _ in 0..17 {
        d.paint();
    }
    // Beat 1 begins at clock 16 (16 * 0.065 >= 1), the 17th frame: odd LEDs
    // take the first color.
    assert_eq!(d.leds, vec![Color { r: 0, g: 0, b: 0 }, Color { r: 100, g: 0, b: 0 }]);
    d.paint();
    assert_eq!(d.leds[1], Color { r: 50, g: 0, b: 0 });
}

#[test]
fn show_runs_one_tick() {
    let mut p = params("sweep");
    p.global_brightness = 1000;
    let mut show = Show::new(vec![Bounds { height: 12, width: 4 }], vec![Bounds { height: 12, width: 4 }], p, 1);
    show.run();
    assert_eq!(show.frame()[0], Color { r: 9, g: 8, b: 7 });
    match &show.painters[0] {
        wavesuit::painter::Painter::Sweep(s) => assert_eq!(s.tick, 1),
        _ => panic!("sweep expected"),
    }
}
