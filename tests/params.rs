use wavesuit::color::Color;
use wavesuit::control::{payload_fits, ControlState};
use wavesuit::params::{PainterParams, ParamsError};

fn sample(painter: &str) -> PainterParams {
    PainterParams {
        painter: String::from(painter),
        global_brightness: 100,
        speed: 800,
        color: Color::new(0xFFFFFF),
        secondary_colors: vec![Color::new(0x4267B2), Color::new(0x898F9C), Color::new(0xAC0000)],
        fade: 900,
        bidirectional: true,
        fade_after: true,
        color_index: 0,
        belt_only: false,
    }
}

#[test]
fn dimming_scales_every_color() {
    let mut p = sample("hex");
    p.apply_dimming();
    assert_eq!(p.color, Color { r: 25, g: 25, b: 25 });
    assert_eq!(p.secondary_colors[0], Color { r: 6, g: 10, b: 17 });
    assert_eq!(p.secondary_colors[1], Color { r: 13, g: 14, b: 15 });
    assert_eq!(p.secondary_colors[2], Color { r: 17, g: 0, b: 0 });
    assert_eq!(p.global_brightness, 100);
    assert_eq!(p.painter, "hex");
}

#[test]
fn dimming_twice_is_close_to_dimming_once() {
    for b1 in [0u32, 1, 99, 333, 500, 999, 1000] {
        for b2 in [0u32, 7, 250, 501, 1000] {
            let mut twice = sample("sweep");
            twice.global_brightness = b1;
            twice.apply_dimming();
            twice.global_brightness = b2;
            twice.apply_dimming();
            let mut once = sample("sweep");
            once.global_brightness = b1 * b2 / 1000;
            once.apply_dimming();
            let close = |a: Color, b: Color| {
                (a.r as i32 - b.r as i32).abs() <= 1
                    && (a.g as i32 - b.g as i32).abs() <= 1
                    && (a.b as i32 - b.b as i32).abs() <= 1
            };
            assert!(close(twice.color, once.color));
            for i in 0..3 {
                assert!(close(twice.secondary_colors[i], once.secondary_colors[i]));
            }
        }
    }
}

#[test]
fn next_color_cycles_the_palette() {
    let mut p = sample("hex");
    assert_eq!(p.next_color(), Color::new(0x4267B2));
    assert_eq!(p.next_color(), Color::new(0x898F9C));
    assert_eq!(p.next_color(), Color::new(0xAC0000));
    assert_eq!(p.next_color(), Color::new(0x4267B2));
    p.color_index = 7;
    assert_eq!(p.next_color(), Color::new(0x898F9C));
    assert_eq!(p.color_index, 2);
}

#[test]
fn validation_accepts_well_formed_sets() {
    let p = sample("disco");
    let r = p.clone().validate();
    assert!(r.is_ok());
    assert_eq!(r.unwrap().painter, "disco");
    assert!(p.is_valid());
}

#[test]
fn validation_refuses_bright_or_empty_sets() {
    let mut p = sample("hex");
    p.global_brightness = 1001;
    assert_eq!(p.validate().unwrap_err(), ParamsError::MalformedParameters);
    let mut p = sample("hex");
    p.fade = 5000;
    assert_eq!(p.validate().unwrap_err(), ParamsError::MalformedParameters);
    let mut p = sample("hex");
    p.secondary_colors.clear();
    assert_eq!(p.validate().unwrap_err(), ParamsError::MalformedParameters);
}

#[test]
fn duplicate_copies_every_field() {
    let p = sample("line");
    let q = p.duplicate();
    assert_eq!(q.painter, p.painter);
    assert_eq!(q.secondary_colors, p.secondary_colors);
    assert_eq!(q.speed, p.speed);
}

#[test]
fn control_post_then_get_returns_undimmed() {
    let mut state = ControlState::new(sample("hex"));
    let posted = sample("line");
    let dimmed = state.post(posted.clone());
    let got = state.get();
    assert_eq!(got.painter, "line");
    assert_eq!(got.color, posted.color);
    assert_eq!(got.secondary_colors, posted.secondary_colors);
    assert_eq!(got.global_brightness, 100);
    assert_eq!(dimmed.color, Color { r: 25, g: 25, b: 25 });
    assert_eq!(dimmed.painter, "line");
}

#[test]
fn payload_limit() {
    assert!(payload_fits(0));
    assert!(payload_fits(1024));
    assert!(!payload_fits(1025));
}
