use wavesuit::color::{log_scale, Color};

#[test]
fn color_from_hex_code() {
    assert_eq!(Color::new(0x4267B2), Color { r: 0x42, g: 0x67, b: 0xB2 });
    assert_eq!(Color::new(0xFF0000), Color { r: 255, g: 0, b: 0 });
    assert_eq!(Color::new(0x000000), Color { r: 0, g: 0, b: 0 });
}

#[test]
fn color_ignores_high_bits() {
    assert_eq!(Color::new(0x7F00FF00), Color { r: 0, g: 255, b: 0 });
    assert_eq!(Color::new(-1), Color { r: 255, g: 255, b: 255 });
}

#[test]
fn log_scale_is_pass_through() {
    assert_eq!(log_scale(0), 0);
    assert_eq!(log_scale(77), 77);
    assert_eq!(log_scale(255), 255);
}

#[test]
fn scaling_truncates_each_channel() {
    let c = Color { r: 255, g: 100, b: 7 };
    assert_eq!(c.scaled(1000), c);
    assert_eq!(c.scaled(0), Color { r: 0, g: 0, b: 0 });
    assert_eq!(c.scaled(500), Color { r: 127, g: 50, b: 3 });
    assert_eq!(c.scaled(100), Color { r: 25, g: 10, b: 0 });
}

#[test]
fn scaling_in_place() {
    let mut c = Color { r: 200, g: 10, b: 99 };
    c.scale_in_place(900);
    assert_eq!(c, Color { r: 180, g: 9, b: 89 });
}
