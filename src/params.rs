use vstd::prelude::*;
use vstd::arithmetic::div_mod::{
    lemma_div_denominator,
    lemma_div_is_ordered,
    lemma_fundamental_div_mod,
    lemma_fundamental_div_mod_converse,
    lemma_div_plus_one,
};
use crate::color::{Color, UNIT, scale_channel};

verus! {

/// Largest number of secondary colors of a parameter set.
pub const MAX_PALETTE: usize = 4096;

/// The externally visible configuration of the show. Fractions are counted in
/// thousandths of `UNIT`: `global_brightness` and `fade` lie in `0..=1000`,
/// `speed` is in thousandths of a logical step per tick.
#[derive(Clone, Debug)]
pub struct PainterParams {
    pub painter: String,
    pub global_brightness: u32,
    pub speed: u32,
    pub color: Color,
    pub secondary_colors: Vec<Color>,
    pub fade: u32,
    pub bidirectional: bool,
    pub fade_after: bool,
    pub color_index: usize,
    pub belt_only: bool,
}

/// Mathematical model of a parameter set.
pub struct ParamsView {
    pub painter: Seq<char>,
    pub global_brightness: int,
    pub speed: int,
    pub color: Color,
    pub secondary_colors: Seq<Color>,
    pub fade: int,
    pub bidirectional: bool,
    pub fade_after: bool,
    pub color_index: int,
    pub belt_only: bool,
}

impl View for PainterParams {
    type V = ParamsView;

    open spec fn view(&self) -> ParamsView {
        ParamsView {
            painter: self.painter@,
            global_brightness: self.global_brightness as int,
            speed: self.speed as int,
            color: self.color,
            secondary_colors: self.secondary_colors@,
            fade: self.fade as int,
            bidirectional: self.bidirectional,
            fade_after: self.fade_after,
            color_index: self.color_index as int,
            belt_only: self.belt_only,
        }
    }
}

/// Every color of `colors` scaled by `b` thousandths.
pub open spec fn dim_colors(colors: Seq<Color>, b: int) -> Seq<Color> {
    Seq::new(colors.len(), |i: int| colors[i].scaled_spec(b))
}

/// Two colors differ by at most one in every channel.
pub open spec fn colors_close(a: Color, b: Color) -> bool {
    &&& -1 <= a.r - b.r <= 1
    &&& -1 <= a.g - b.g <= 1
    &&& -1 <= a.b - b.b <= 1
}

impl ParamsView {
    /// Brightness and fade are fractions, and the palette holds between one
    /// and `MAX_PALETTE` colors.
    pub open spec fn wf(self) -> bool {
        &&& 0 <= self.global_brightness <= UNIT
        &&& 0 <= self.fade <= UNIT
        &&& 1 <= self.secondary_colors.len() <= MAX_PALETTE
    }

    /// The parameter set with its primary and secondary colors scaled by `b`.
    pub open spec fn dimmed_by(self, b: int) -> ParamsView {
        ParamsView {
            color: self.color.scaled_spec(b),
            secondary_colors: dim_colors(self.secondary_colors, b),
            ..self
        }
    }

    /// Position in the palette of the color that `next_color` hands out.
    pub open spec fn palette_pos(self) -> int {
        self.color_index % (self.secondary_colors.len() as int)
    }

    /// Two parameter sets whose colors differ by at most one per channel, and
    /// that agree on everything else.
    pub open spec fn close_to(self, other: ParamsView) -> bool {
        &&& colors_close(self.color, other.color)
        &&& self.secondary_colors.len() == other.secondary_colors.len()
        &&& forall|i: int|
            0 <= i < self.secondary_colors.len() ==> colors_close(
                #[trigger] self.secondary_colors[i],
                other.secondary_colors[i],
            )
        &&& self.painter == other.painter
        &&& self.global_brightness == other.global_brightness
        &&& self.speed == other.speed
        &&& self.fade == other.fade
        &&& self.bidirectional == other.bidirectional
        &&& self.fade_after == other.fade_after
        &&& self.color_index == other.color_index
        &&& self.belt_only == other.belt_only
    }
}

/// Why a parameter set was refused.
#[derive(Clone, Copy, Debug, PartialEq, Eq, Structural)]
pub enum ParamsError {
    MalformedParameters,
}

impl PainterParams {
    pub open spec fn wf(&self) -> bool {
        self@.wf()
    }

    /// A field-by-field copy.
    pub fn duplicate(&self) -> (r: PainterParams)
        ensures
            r@ == self@,
    {
        let colors = self.secondary_colors.clone();
        assert(colors@ =~= self.secondary_colors@);
        PainterParams {
            painter: self.painter.clone(),
            global_brightness: self.global_brightness,
            speed: self.speed,
            color: self.color,
            secondary_colors: colors,
            fade: self.fade,
            bidirectional: self.bidirectional,
            fade_after: self.fade_after,
            color_index: self.color_index,
            belt_only: self.belt_only,
        }
    }

    /// Whether the parameter set is well formed.
    pub fn is_valid(&self) -> (r: bool)
        ensures
            r == self.wf(),
    {
        self.global_brightness <= UNIT && self.fade <= UNIT && self.secondary_colors.len() >= 1
            && self.secondary_colors.len() <= MAX_PALETTE
    }

    /// Accepts a well-formed parameter set and refuses any other.
    pub fn validate(self) -> (r: Result<PainterParams, ParamsError>)
        ensures
            self.wf() ==> (r matches Ok(p) && p@ == self@),
            !self.wf() ==> r == Err::<PainterParams, ParamsError>(ParamsError::MalformedParameters),
    {
        if self.is_valid() {
            Ok(self)
        } else {
            Err(ParamsError::MalformedParameters)
        }
    }

    /// Scales the primary and every secondary color by the global brightness.
    pub fn apply_dimming(&mut self)
        requires
            old(self).wf(),
        ensures
            final(self)@ == old(self)@.dimmed_by(old(self).global_brightness as int),
    {
        let b = self.global_brightness;
        self.color.scale_in_place(b);
        let n = self.secondary_colors.len();
        let mut idx: usize = 0;
        while idx < n
            invariant
                n == self.secondary_colors.len(),
                n == old(self).secondary_colors.len(),
                b == old(self).global_brightness,
                b <= UNIT,
                0 <= idx <= n,
                forall|i: int|
                    0 <= i < idx ==> #[trigger] self.secondary_colors@[i]
                        == old(self).secondary_colors@[i].scaled_spec(b as int),
                forall|i: int|
                    idx <= i < n ==> #[trigger] self.secondary_colors@[i]
                        == old(self).secondary_colors@[i],
                self.painter == old(self).painter,
                self.global_brightness == old(self).global_brightness,
                self.speed == old(self).speed,
                self.color == old(self).color.scaled_spec(b as int),
                self.fade == old(self).fade,
                self.bidirectional == old(self).bidirectional,
                self.fade_after == old(self).fade_after,
                self.color_index == old(self).color_index,
                self.belt_only == old(self).belt_only,
            decreases n - idx,
        {
            let c = self.secondary_colors[idx].scaled(b);
            self.secondary_colors.set(idx, c);
            idx += 1;
        }
        assert(self.secondary_colors@ =~= dim_colors(
            old(self).secondary_colors@,
            b as int,
        ));
    }

    /// Hands out the palette color at the cycling position and moves the
    /// position on by one, wrapping at the end of the palette.
    pub fn next_color(&mut self) -> (c: Color)
        requires
            old(self).wf(),
        ensures
            c == old(self)@.secondary_colors[old(self)@.palette_pos()],
            final(self)@ == (ParamsView { color_index: old(self)@.palette_pos() + 1, ..old(self)@ }),
            final(self)@.palette_pos() == (old(self)@.palette_pos() + 1) % (
            old(self)@.secondary_colors.len() as int),
    {
        let n = self.secondary_colors.len();
        let pos = self.color_index % n;
        let c = self.secondary_colors[pos];
        self.color_index = pos + 1;
        c
    }
}

/// Dimming by `b1` and then by `b2` gives, channel by channel and up to one
/// step of truncation, what dimming once by `b1 * b2` gives.
pub proof fn lemma_dimming_composes(p: ParamsView, b1: int, b2: int)
    requires
        0 <= b1 <= UNIT,
        0 <= b2 <= UNIT,
    ensures
        p.dimmed_by(b1).dimmed_by(b2).close_to(p.dimmed_by(b1 * b2 / (UNIT as int))),
{
    let b = b1 * b2 / (UNIT as int);
    lemma_color_scaled_twice(p.color, b1, b2);
    let twice = p.dimmed_by(b1).dimmed_by(b2);
    let once = p.dimmed_by(b);
    assert forall|i: int| 0 <= i < twice.secondary_colors.len() implies colors_close(
        #[trigger] twice.secondary_colors[i],
        once.secondary_colors[i],
    ) by {
        lemma_color_scaled_twice(p.secondary_colors[i], b1, b2);
    }
}

/// A color scaled by `b1` and then `b2` is within one step per channel of the
/// color scaled once by `b1 * b2`.
pub proof fn lemma_color_scaled_twice(c: Color, b1: int, b2: int)
    requires
        0 <= b1 <= UNIT,
        0 <= b2 <= UNIT,
    ensures
        colors_close(c.scaled_spec(b1).scaled_spec(b2), c.scaled_spec(b1 * b2 / (UNIT as int))),
{
    assert(0 <= b1 * b2 <= 1000 * 1000) by (nonlinear_arith)
        requires 0 <= b1 <= 1000, 0 <= b2 <= 1000;
    let b = b1 * b2 / 1000;
    assert(0 <= b <= 1000) by {
        lemma_div_is_ordered(b1 * b2, 1000000int, 1000int);
        lemma_div_is_ordered(0int, b1 * b2, 1000int);
    }
    lemma_scale_channel_range(c.r, b);
    lemma_scale_channel_range(c.g, b);
    lemma_scale_channel_range(c.b, b);
    lemma_scale_channel_range(c.r, b1);
    lemma_scale_channel_range(c.g, b1);
    lemma_scale_channel_range(c.b, b1);
    lemma_scale_channel_range(c.scaled_spec(b1).r, b2);
    lemma_scale_channel_range(c.scaled_spec(b1).g, b2);
    lemma_scale_channel_range(c.scaled_spec(b1).b, b2);
    lemma_channel_scaled_twice(c.r, b1, b2);
    lemma_channel_scaled_twice(c.g, b1, b2);
    lemma_channel_scaled_twice(c.b, b1, b2);
}

proof fn lemma_channel_scaled_twice(c: u8, b1: int, b2: int)
    requires
        0 <= b1 <= UNIT,
        0 <= b2 <= UNIT,
    ensures
        ({
            let t = scale_channel(scale_channel(c, b1) as u8, b2);
            let o = scale_channel(c, b1 * b2 / 1000);
            -1 <= t - o <= 1
        }),
{
    let m: int = 1000;
    let a = c as int * b1;
    let q1 = a / m;
    let r1 = a % m;
    lemma_fundamental_div_mod(a, m);
    assert(0 <= a <= 255 * 1000) by (nonlinear_arith)
        requires a == c as int * b1, 0 <= b1 <= 1000, 0 <= c <= 255;
    assert(0 <= q1 <= 255) by {
        lemma_div_is_ordered(a, 255000int, m);
        lemma_div_is_ordered(0int, a, m);
    }
    assert(scale_channel(c, b1) == q1);
    assert((q1 as u8) as int == q1);
    let x = c as int * b1 * b2;
    // Twice: q1 * b2 * 1000 == x - r1 * b2.
    let e1 = r1 * b2;
    assert(q1 * b2 * m == x - e1) by (nonlinear_arith)
        requires a == m * q1 + r1, x == a * b2, e1 == r1 * b2, a == c as int * b1,
            x == c as int * b1 * b2;
    assert(0 <= e1 < m * m) by (nonlinear_arith)
        requires e1 == r1 * b2, 0 <= r1 < m, 0 <= b2 <= 1000, m == 1000;
    lemma_fundamental_div_mod_converse(x - e1, m, q1 * b2, 0);
    lemma_div_denominator(x - e1, m, m);
    let t = (q1 * b2) / m;
    assert(t == (x - e1) / (m * m));
    // Once: c * b * 1000 == x - c * r2.
    let bb = b1 * b2;
    let b = bb / m;
    let r2 = bb % m;
    lemma_fundamental_div_mod(bb, m);
    let e2 = c as int * r2;
    assert(c as int * b * m == x - e2) by (nonlinear_arith)
        requires bb == m * b + r2, bb == b1 * b2, e2 == c as int * r2, x == c as int * b1 * b2;
    assert(0 <= e2 < m * m) by (nonlinear_arith)
        requires e2 == c as int * r2, 0 <= r2 < m, 0 <= c <= 255, m == 1000;
    lemma_fundamental_div_mod_converse(x - e2, m, c as int * b, 0);
    lemma_div_denominator(x - e2, m, m);
    let o = (c as int * b) / m;
    assert(o == (x - e2) / (m * m));
    lemma_shifted_floor(x, e1, m * m);
    lemma_shifted_floor(x, e2, m * m);
}

/// A channel scaled by a fraction stays between zero and its old value.
pub proof fn lemma_scale_channel_range(c: u8, s: int)
    requires
        0 <= s <= UNIT,
    ensures
        0 <= scale_channel(c, s) <= c,
        (scale_channel(c, s) as u8) as int == scale_channel(c, s),
{
    assert(0 <= c as int * s <= c as int * 1000) by (nonlinear_arith)
        requires 0 <= s <= 1000, c >= 0;
    lemma_div_is_ordered(c as int * s, c as int * 1000, 1000int);
    lemma_div_is_ordered(0int, c as int * s, 1000int);
    vstd::arithmetic::div_mod::lemma_div_multiples_vanish(c as int, 1000int);
}

/// Taking less than one divisor off a number lowers its quotient by at most one.
proof fn lemma_shifted_floor(x: int, e: int, d: int)
    requires
        d > 0,
        0 <= e < d,
    ensures
        x / d - 1 <= (x - e) / d <= x / d,
{
    lemma_div_is_ordered(x - e, x, d);
    lemma_div_is_ordered(x - d, x - e, d);
    lemma_div_plus_one(x - d, d);
}

} // verus!
