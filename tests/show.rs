use wavesuit::color::Color;
use wavesuit::display::{get_display, make_display, new, Display, FakeDisplay};
use wavesuit::geometry::Bounds;
use wavesuit::painter::{accepts, kind_of, make_painter, Painter, PainterKind};
use wavesuit::params::PainterParams;
use wavesuit::show::Show;

fn params(painter: &str, belt_only: bool) -> PainterParams {
    PainterParams {
        painter: String::from(painter),
        global_brightness: 100,
        speed: 800,
        color: Color::new(0xFFFFFF),
        secondary_colors: vec![Color::new(0x4267B2), Color::new(0x898F9C)],
        fade: 900,
        bidirectional: true,
        fade_after: true,
        color_index: 0,
        belt_only,
    }
}

fn rig() -> (Vec<Bounds>, Vec<Bounds>) {
    (
        vec![
            Bounds { height: 30, width: 16 },
            Bounds { height: 30, width: 4 },
            Bounds { height: 22, width: 4 },
        ],
        vec![Bounds { height: 22, width: 4 }],
    )
}

#[test]
fn pattern_names() {
    assert_eq!(kind_of(&String::from("hex")), PainterKind::Hex);
    assert_eq!(kind_of(&String::from("line")), PainterKind::Line);
    assert_eq!(kind_of(&String::from("fade")), PainterKind::Fade);
    assert_eq!(kind_of(&String::from("rain")), PainterKind::Rain);
    assert_eq!(kind_of(&String::from("disco")), PainterKind::Disco);
    assert_eq!(kind_of(&String::from("sweep")), PainterKind::Sweep);
    assert_eq!(kind_of(&String::from("plasma")), PainterKind::Sweep);
}

#[test]
fn panels_each_pattern_accepts() {
    assert!(accepts(PainterKind::Hex, Bounds { height: 4, width: 4 }));
    assert!(!accepts(PainterKind::Hex, Bounds { height: 4, width: 5 }));
    assert!(!accepts(PainterKind::Hex, Bounds { height: 2, width: 4 }));
    assert!(accepts(PainterKind::Line, Bounds { height: 11, width: 2 }));
    assert!(!accepts(PainterKind::Line, Bounds { height: 10, width: 2 }));
    assert!(accepts(PainterKind::Sweep, Bounds { height: 1, width: 1 }));
    assert!(!accepts(PainterKind::Sweep, Bounds { height: 0, width: 1 }));
}

#[test]
fn factory_picks_the_named_pattern() {
    let b = Bounds { height: 22, width: 4 };
    for (name, kind) in [("hex", "Hex"), ("line", "Line"), ("fade", "Fade"), ("rain", "Rain"), ("disco", "Disco"), ("other", "Sweep")] {
        let p = make_painter(b, params(name, false), 1);
        let got = match p {
            Painter::Sweep(_) => "Sweep",
            Painter::Hex(_) => "Hex",
            Painter::Fade(_) => "Fade",
            Painter::Line(_) => "Line",
            Painter::Rain(_) => "Rain",
            Painter::Disco(_) => "Disco",
        };
        assert_eq!(got, kind);
        assert_eq!(p.length(), 88);
        assert_eq!(p.get(0), Color { r: 0, g: 0, b: 0 });
    }
}

#[test]
fn show_renders_all_panels() {
    let (all, belt) = rig();
    let mut show = Show::new(all, belt, params("sweep", false), 3);
    assert_eq!(show.active_count(), 688);
    show.tick();
    let frame = show.frame();
    assert_eq!(frame.len(), 688);
    assert_eq!(frame[0], Color::new(0xFFFFFF));
}

#[test]
fn show_hot_swaps_same_pattern() {
    let (all, belt) = rig();
    let mut show = Show::new(all, belt, params("sweep", false), 3);
    show.tick();
    show.tick();
    let before = show.frame();
    let mut next = params("sweep", false);
    next.speed = 100;
    assert_eq!(show.apply(next), None);
    assert_eq!(show.frame(), before);
    match &show.painters[0] {
        Painter::Sweep(p) => {
            assert_eq!(p.tick, 2);
            assert_eq!(p.params.speed, 100);
        }
        _ => panic!("pattern changed"),
    }
}

#[test]
fn show_rebuilds_on_new_pattern_or_zone() {
    let (all, belt) = rig();
    let mut show = Show::new(all, belt, params("sweep", false), 3);
    show.tick();
    assert_eq!(show.apply(params("line", false)), None);
    assert_eq!(show.painters.len(), 3);
    assert!(matches!(show.painters[2], Painter::Line(_)));
    assert!(show.frame().iter().all(|c| *c == Color { r: 0, g: 0, b: 0 }));
    assert_eq!(show.apply(params("line", true)), Some(88));
    assert_eq!(show.painters.len(), 1);
    assert_eq!(show.frame().len(), 88);
    assert_eq!(show.apply(params("line", false)), Some(688));
}

#[test]
fn null_display() {
    let mut d: FakeDisplay = get_display(688);
    assert_eq!(d, make_display(688));
    assert_eq!(d, new(688));
    d.set_pixel(3, 1, 2, 3);
    assert!(d.show().is_ok());
    assert_eq!(d.frames, 1);
    d.set_count(88);
    assert_eq!(d.count, 88);
    d.set_count(5000);
    assert_eq!(d.count, 688);
}
