use wavesuit::color::Color;
use wavesuit::disco::Disco;
use wavesuit::fade::FadePainter;
use wavesuit::geometry::{physical_index, Bounds};
use wavesuit::hex::HexPainter;
use wavesuit::leds::{fade_all, fill_every_other, new_led_string, should_advance};
use wavesuit::line::LinePainter;
use wavesuit::params::PainterParams;
use wavesuit::rain::Raindrops;
use wavesuit::sweep::SweepPainter;

const RED: Color = Color { r: 255, g: 0, b: 0 };
const BLUE: Color = Color { r: 0, g: 0, b: 255 };
const BLACK: Color = Color { r: 0, g: 0, b: 0 };

fn params(painter: &str, speed: u32, colors: Vec<Color>) -> PainterParams {
    PainterParams {
        painter: String::from(painter),
        global_brightness: 1000,
        speed,
        color: Color { r: 200, g: 100, b: 40 },
        secondary_colors: colors,
        fade: 900,
        bidirectional: true,
        fade_after: true,
        color_index: 0,
        belt_only: false,
    }
}

#[test]
fn led_helpers() {
    let mut leds = new_led_string(4);
    assert_eq!(leds, vec![BLACK; 4]);
    fill_every_other(1, RED, &mut leds);
    assert_eq!(leds, vec![BLACK, RED, BLACK, RED]);
    fade_all(&mut leds, 500);
    assert_eq!(leds[1], Color { r: 127, g: 0, b: 0 });
    assert!(should_advance(900, 200, 1000));
    assert!(!should_advance(100, 200, 1000));
    assert!(should_advance(1999, 1, 2000));
}

#[test]
fn sweep_wraps_after_ceil_of_growth_over_speed() {
    // Height 4, growth 2, one row a frame: the clock starts over after 8 frames.
    let mut p = SweepPainter::new(2, 4, params("sweep", 1000, vec![RED]));
    let mut ticks = Vec::new();
    for _ in 0..8 {
        p.paint();
        ticks.push(p.tick);
    }
    assert_eq!(ticks, vec![1, 2, 3, 4, 5, 6, 7, 0]);
    assert!(p.flip);
}

#[test]
fn sweep_wraps_with_fractional_speed() {
    // Height 30 at speed 0.8: ceil(60 / 0.8) = 75 frames.
    let mut p = SweepPainter::new(16, 30, params("sweep", 800, vec![RED]));
    let mut wrapped_at = 0;
    for frame in 1..=75 {
        p.paint();
        if p.tick == 0 && wrapped_at == 0 {
            wrapped_at = frame;
        }
    }
    assert_eq!(wrapped_at, 75);
}

#[test]
fn sweep_band_levels() {
    let mut p = SweepPainter::new(2, 4, params("sweep", 1000, vec![RED]));
    p.paint();
    // Center on row 0: row 0 full, row 1 at (1/2)^3, row 2 and below dark.
    let full = Color { r: 200, g: 100, b: 40 };
    assert_eq!(p.get(physical_index(4, 0, 0)), full);
    assert_eq!(p.get(physical_index(4, 1, 0)), full);
    assert_eq!(p.get(physical_index(4, 0, 1)), Color { r: 25, g: 12, b: 5 });
    assert_eq!(p.get(physical_index(4, 1, 1)), Color { r: 25, g: 12, b: 5 });
    assert_eq!(p.get(physical_index(4, 0, 2)), BLACK);
    assert_eq!(p.length(), 8);
    p.paint();
    // Center on row 1: row 0 behind it at (9/10)^3.
    assert_eq!(p.get(physical_index(4, 0, 0)), Color { r: 145, g: 72, b: 29 });
    assert_eq!(p.get(physical_index(4, 0, 1)), full);
}

#[test]
fn sweep_keeps_clock_on_new_params() {
    let mut p = SweepPainter::new(2, 4, params("sweep", 1000, vec![RED]));
    p.paint();
    p.paint();
    p.set_params(params("sweep", 500, vec![BLUE]));
    assert_eq!(p.tick, 2);
    assert_eq!(p.params.speed, 500);
}

#[test]
fn fade_bands() {
    let mut p = FadePainter::new(Bounds { height: 2, width: 2 }, params("fade", 300, vec![RED, BLUE]));
    assert_eq!(p.tick, 2000);
    p.paint();
    assert_eq!(p.leds, vec![BLUE, RED, RED, BLUE]);
    assert_eq!(p.tick, 2300);
}

#[test]
fn fade_clock_wraps_by_periods() {
    // Period 2 * 2 * 700 = 2800: the clock comes back once it reaches 5600.
    let mut p = FadePainter::new(Bounds { height: 2, width: 2 }, params("fade", 1800, vec![RED, BLUE]));
    p.paint();
    assert_eq!(p.tick, 3800);
    p.paint();
    assert_eq!(p.tick, 5600 - 2800);
    p.paint();
    assert_eq!(p.tick, 4600);
    p.paint();
    assert_eq!(p.tick, 6400 - 2800);
}

#[test]
fn disco_adds_default_colors() {
    let d = Disco::new(Bounds { height: 2, width: 2 }, params("disco", 1000, vec![RED]));
    assert_eq!(d.params.secondary_colors, vec![RED, BLUE]);
    assert_eq!(d.length(), 4);
    let d = Disco::new(Bounds { height: 2, width: 2 }, params("disco", 1000, vec![BLUE, RED, RED]));
    assert_eq!(d.params.secondary_colors.len(), 3);
}

#[test]
fn disco_at_sixty_bpm_alternates_every_second() {
    // 60 / 130 of the base tempo, in thousandths.
    let mut p = params("disco", 462, vec![RED, BLUE]);
    p.fade = 1000;
    let mut d = Disco::new(Bounds { height: 2, width: 3 }, p);
    let mut beats: Vec<(u64, u128)> = Vec::new();
    for _ in 0..400 {
        let before = d.last_beat;
        let tick = d.tick;
        d.paint();
        if d.last_beat != before {
            beats.push((tick, d.last_beat));
        }
    }
    assert!(beats.len() >= 10);
    assert_eq!(beats[0], (34, 1));
    for w in beats.windows(2) {
        let gap = w[1].0 - w[0].0;
        assert!(gap == 33 || gap == 34);
        assert_eq!(w[1].1, w[0].1 + 1);
        assert_ne!(w[1].1 % 2, w[0].1 % 2);
    }
}

#[test]
fn disco_fills_alternate_parity() {
    let mut p = params("disco", 462, vec![RED, BLUE]);
    p.fade = 1000;
    let mut d = Disco::new(Bounds { height: 2, width: 2 }, p);
    for _ in 0..35 {
        d.paint();
    }
    assert_eq!(d.leds, vec![BLACK, RED, BLACK, RED]);
    for _ in 0..33 {
        d.paint();
    }
    assert_eq!(d.leds, vec![BLUE, RED, BLUE, RED]);
}

#[test]
fn rain_drops_respawn() {
    let b = Bounds { height: 22, width: 4 };
    let mut r = Raindrops::new(b, params("rain", 1000, vec![RED]), 7);
    assert_eq!(r.trails.len(), 8);
    for t in r.trails.iter() {
        assert!(t.head_x >= 0 && t.head_x < 4);
        assert!(t.head_y >= -44 && t.head_y < 0);
        assert_eq!(t.y_dir, 2);
    }
    let mut respawned = vec![false; 8];
    let mut outside = vec![false; 8];
    for _ in 0..1000 {
        let before = r.trails.clone();
        r.paint();
        for i in 0..8 {
            let t = r.trails[i];
            if t.head_y != before[i].head_y + before[i].y_dir {
                respawned[i] = true;
            }
            if !b.in_y(t.head_y) {
                outside[i] = true;
            }
            assert!(t.head_y >= -44 && t.head_y < 88);
            assert!(t.head_x >= 0 && t.head_x < 4);
        }
    }
    assert!(respawned.iter().all(|&x| x));
    assert!(outside.iter().all(|&x| x));
}

#[test]
fn rain_lights_its_drops() {
    let b = Bounds { height: 5, width: 2 };
    let mut p = params("rain", 0, vec![RED]);
    p.fade = 0;
    let mut r = Raindrops::new(b, p, 3);
    for t in r.trails.iter_mut() {
        t.head_x = 1;
        t.head_y = 4;
    }
    r.paint();
    for i in 0..10 {
        let lit = i == physical_index(5, 1, 2);
        assert_eq!(r.get(i), if lit { Color { r: 200, g: 100, b: 40 } } else { BLACK });
    }
}

#[test]
fn line_trails_descend_and_turn() {
    let b = Bounds { height: 22, width: 4 };
    let mut l = LinePainter::new(4, 22, params("line", 1000, vec![RED, BLUE]), 11);
    assert_eq!(l.trails[0].head_y, 0);
    assert_eq!(l.trails[1].head_x, 3);
    assert_eq!(l.trails[1].head_y, 1);
    l.paint();
    assert_eq!(l.get(physical_index(22, 0, 0)), RED);
    assert_eq!(l.get(physical_index(22, 3, 0)), RED);
    assert_eq!(l.trails[0].head_y, 2);
    assert_eq!(l.trails[1].head_y, 3);
    let mut resets = 0;
    for _ in 0..2000 {
        let before = l.color_index;
        l.paint();
        if l.color_index != before {
            resets += 1;
            for t in l.trails.iter() {
                assert!(t.y_diag_start >= 5 && t.y_diag_start < 17);
            }
        }
        for t in l.trails.iter() {
            assert!(t.head_x >= 0 && t.head_x < 4);
            assert_eq!((t.head_y - t.head_x).rem_euclid(2), 0);
            assert!(t.head_y >= -24 && t.head_y <= 2 * 22 + 24);
        }
    }
    assert!(resets > 0);
    assert!(b.size() == l.length());
}

#[test]
fn hex_holds_still_after_spread_ends() {
    let mut p = params("hex", 1000, vec![RED]);
    p.fade_after = true;
    let mut h = HexPainter::new(Bounds { height: 4, width: 4 }, p, 5);
    let mut frames: Vec<Vec<Color>> = Vec::new();
    for _ in 0..200 {
        h.paint();
        frames.push(h.leds.clone());
    }
    let mut longest = 1;
    let mut run = 1;
    for i in 1..frames.len() {
        if frames[i] == frames[i - 1] {
            run += 1;
            longest = longest.max(run);
        } else {
            run = 1;
        }
    }
    assert!(longest >= 40);
    // The seed tile was painted in the palette color.
    assert_eq!(frames[0][physical_index(4, 2, 1)], RED);
}

#[test]
fn hex_spreads_on_a_large_panel() {
    let p = params("hex", 2000, vec![RED, BLUE]);
    let b = Bounds { height: 30, width: 16 };
    let mut h = HexPainter::new(b, p, 9);
    let mut most = 0;
    for _ in 0..300 {
        h.paint();
        most = most.max(h.hexes.len());
        for t in h.hexes.iter() {
            assert!(t.x >= 1 && t.x <= 14);
            assert!(t.y >= 2 && t.y < 58);
            assert_eq!((t.y - t.x).rem_euclid(2), 0);
        }
    }
    assert!(most >= 1);
    assert_eq!(h.length(), 480);
}

#[test]
fn hex_fades_without_hold() {
    let mut p = params("hex", 2000, vec![RED]);
    p.fade_after = false;
    let mut h = HexPainter::new(Bounds { height: 4, width: 4 }, p, 1);
    h.paint();
    assert_eq!(h.fade_frames, 40);
    assert_eq!(h.hold_frames, 0);
    assert_eq!(h.hexes.len(), 0);
}
