use vstd::prelude::*;
use crate::color::Color;
use crate::geometry::Bounds;
use crate::params::{PainterParams, ParamsView};
use crate::sweep::SweepPainter;
use crate::hex::{HexPainter, hex_bounds_ok};
use crate::fade::FadePainter;
use crate::line::{LinePainter, line_bounds_ok};
use crate::rain::Raindrops;
use crate::disco::Disco;

verus! {

/// The animation patterns.
#[derive(Clone, Copy, Debug, PartialEq, Eq, Structural)]
pub enum PainterKind {
    Sweep,
    Hex,
    Fade,
    Line,
    Rain,
    Disco,
}

/// Pattern selected by a name; any name that is not one of the others
/// selects the sweep.
pub open spec fn kind_of_spec(name: Seq<char>) -> PainterKind {
    if name == "hex"@ {
        PainterKind::Hex
    } else if name == "line"@ {
        PainterKind::Line
    } else if name == "fade"@ {
        PainterKind::Fade
    } else if name == "rain"@ {
        PainterKind::Rain
    } else if name == "disco"@ {
        PainterKind::Disco
    } else {
        PainterKind::Sweep
    }
}

/// The pattern that a name selects.
pub fn kind_of(name: &String) -> (k: PainterKind)
    ensures
        k == kind_of_spec(name@),
{
    if *name == "hex".to_owned() {
        PainterKind::Hex
    } else if *name == "line".to_owned() {
        PainterKind::Line
    } else if *name == "fade".to_owned() {
        PainterKind::Fade
    } else if *name == "rain".to_owned() {
        PainterKind::Rain
    } else if *name == "disco".to_owned() {
        PainterKind::Disco
    } else {
        PainterKind::Sweep
    }
}

/// Panels on which a pattern can be drawn.
pub open spec fn kind_accepts(kind: PainterKind, b: Bounds) -> bool {
    &&& b.wf()
    &&& kind == PainterKind::Hex ==> hex_bounds_ok(b)
    &&& kind == PainterKind::Line ==> line_bounds_ok(b)
}

/// Whether a pattern can be drawn on a panel.
pub fn accepts(kind: PainterKind, b: Bounds) -> (r: bool)
    ensures
        r == kind_accepts(kind, b),
{
    let side_ok = b.width >= 1 && b.width <= crate::geometry::MAX_SIDE && b.height >= 1 && b.height
        <= crate::geometry::MAX_SIDE;
    match kind {
        PainterKind::Hex => side_ok && b.width % 2 == 0 && b.width >= 4 && b.height >= 3,
        PainterKind::Line => side_ok && b.width % 2 == 0 && b.height > 10,
        _ => side_ok,
    }
}

/// One running animation of any pattern.
pub enum Painter {
    Sweep(SweepPainter),
    Hex(HexPainter),
    Fade(FadePainter),
    Line(LinePainter),
    Rain(Raindrops),
    Disco(Disco),
}

impl Painter {
    pub open spec fn kind(&self) -> PainterKind {
        match self {
            Painter::Sweep(_) => PainterKind::Sweep,
            Painter::Hex(_) => PainterKind::Hex,
            Painter::Fade(_) => PainterKind::Fade,
            Painter::Line(_) => PainterKind::Line,
            Painter::Rain(_) => PainterKind::Rain,
            Painter::Disco(_) => PainterKind::Disco,
        }
    }

    pub open spec fn wf(&self) -> bool {
        match self {
            Painter::Sweep(p) => p.wf(),
            Painter::Hex(p) => p.wf(),
            Painter::Fade(p) => p.wf(),
            Painter::Line(p) => p.wf(),
            Painter::Rain(p) => p.wf(),
            Painter::Disco(p) => p.wf(),
        }
    }

    /// The painter's LED buffer.
    pub open spec fn leds(&self) -> Seq<Color> {
        match self {
            Painter::Sweep(p) => p.leds@,
            Painter::Hex(p) => p.leds@,
            Painter::Fade(p) => p.leds@,
            Painter::Line(p) => p.leds@,
            Painter::Rain(p) => p.leds@,
            Painter::Disco(p) => p.leds@,
        }
    }

    /// The painter's parameters.
    pub open spec fn params_view(&self) -> ParamsView {
        match self {
            Painter::Sweep(p) => p.params@,
            Painter::Hex(p) => p.params@,
            Painter::Fade(p) => p.params@,
            Painter::Line(p) => p.params@,
            Painter::Rain(p) => p.params@,
            Painter::Disco(p) => p.params@,
        }
    }

    /// One frame of the pattern, as its painter states it.
    pub open spec fn painted(old: &Painter, new: &Painter) -> bool {
        match (*old, *new) {
            (Painter::Sweep(a), Painter::Sweep(b)) => SweepPainter::painted(&a, &b),
            (Painter::Hex(a), Painter::Hex(b)) => HexPainter::painted(&a, &b),
            (Painter::Fade(a), Painter::Fade(b)) => FadePainter::painted(&a, &b),
            (Painter::Line(a), Painter::Line(b)) => LinePainter::painted(&a, &b),
            (Painter::Rain(a), Painter::Rain(b)) => Raindrops::painted(&a, &b),
            (Painter::Disco(a), Painter::Disco(b)) => Disco::painted(&a, &b),
            _ => false,
        }
    }

    /// Advances the animation by one frame.
    pub fn paint(&mut self)
        requires
            old(self).wf(),
        ensures
            final(self).wf(),
            final(self).kind() == old(self).kind(),
            final(self).leds().len() == old(self).leds().len(),
            Painter::painted(old(self), final(self)),
    {
        match self {
            Painter::Sweep(p) => p.paint(),
            Painter::Hex(p) => p.paint(),
            Painter::Fade(p) => p.paint(),
            Painter::Line(p) => p.paint(),
            Painter::Rain(p) => p.paint(),
            Painter::Disco(p) => p.paint(),
        }
    }

    /// Number of LEDs of the buffer.
    pub fn length(&self) -> (n: usize)
        ensures
            n == self.leds().len(),
    {
        match self {
            Painter::Sweep(p) => p.length(),
            Painter::Hex(p) => p.length(),
            Painter::Fade(p) => p.length(),
            Painter::Line(p) => p.length(),
            Painter::Rain(p) => p.length(),
            Painter::Disco(p) => p.length(),
        }
    }

    /// The LED at wiring index `index`.
    pub fn get(&self, index: usize) -> (c: Color)
        requires
            index < self.leds().len(),
        ensures
            c == self.leds()[index as int],
    {
        match self {
            Painter::Sweep(p) => p.get(index),
            Painter::Hex(p) => p.get(index),
            Painter::Fade(p) => p.get(index),
            Painter::Line(p) => p.get(index),
            Painter::Rain(p) => p.get(index),
            Painter::Disco(p) => p.get(index),
        }
    }

    /// Replaces the parameters without resetting the animation.
    pub fn set_params(&mut self, params: PainterParams)
        requires
            old(self).wf(),
            params.wf(),
        ensures
            final(self).wf(),
            final(self).kind() == old(self).kind(),
            final(self).leds() == old(self).leds(),
            final(self).params_view() == params@,
    {
        match self {
            Painter::Sweep(p) => p.set_params(params),
            Painter::Hex(p) => p.set_params(params),
            Painter::Fade(p) => p.set_params(params),
            Painter::Line(p) => p.set_params(params),
            Painter::Rain(p) => p.set_params(params),
            Painter::Disco(p) => p.set_params(params),
        }
    }
}

/// A fresh painter of the pattern that `params.painter` names, on `bounds`,
/// with a dark buffer of the panel's size; `seed` seeds its random choices.
pub fn make_painter(bounds: Bounds, params: PainterParams, seed: u64) -> (p: Painter)
    requires
        params.wf(),
        kind_accepts(kind_of_spec(params@.painter), bounds),
    ensures
        p.wf(),
        p.kind() == kind_of_spec(params@.painter),
        p.leds().len() == bounds.size_spec(),
        forall|i: int| 0 <= i < p.leds().len() ==> #[trigger] p.leds()[i] == Color::from_hex_spec(0),
        p.kind() != PainterKind::Disco ==> p.params_view() == params@,
        p.kind() == PainterKind::Disco ==> p.params_view() == (ParamsView {
            secondary_colors: p.params_view().secondary_colors,
            ..params@
        }),
{
    let kind = kind_of(&params.painter);
    match kind {
        PainterKind::Hex => Painter::Hex(HexPainter::new(bounds, params, seed)),
        PainterKind::Line => Painter::Line(LinePainter::new(bounds.width, bounds.height, params, seed)),
        PainterKind::Fade => Painter::Fade(FadePainter::new(bounds, params)),
        PainterKind::Rain => Painter::Rain(Raindrops::new(bounds, params, seed)),
        PainterKind::Disco => Painter::Disco(Disco::new(bounds, params)),
        PainterKind::Sweep => Painter::Sweep(SweepPainter::new(bounds.width, bounds.height, params)),
    }
}

} // verus!
