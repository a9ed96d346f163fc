use vstd::prelude::*;
use crate::color::{Color, UNIT};
use crate::geometry::{staggered_index, physical_index_spec, lemma_cell_in_panel, Bounds, MAX_SIDE};
use crate::leds::new_led_string;
use crate::params::{PainterParams, MAX_PALETTE};
use vstd::arithmetic::div_mod::lemma_mod_bound;

verus! {

/// Width of one color's band, in thousandths of a panel height.
pub const FADE_BAND: u64 = 700;

/// Clock distance, in thousandths of a row, after which the whole palette
/// has passed by once.
pub open spec fn fade_period(b: Bounds, colors: nat) -> int {
    b.height * colors * FADE_BAND
}

/// Bound that the fade clock never reaches.
pub open spec fn fade_tick_bound() -> int {
    2 * MAX_SIDE * MAX_PALETTE * FADE_BAND
}

/// Palette position of column `x`, row `y` at clock `tick`: the clock less
/// the row's offset (odd columns sit half a row lower), in bands of
/// `FADE_BAND` thousandths of the height, wrapped by the palette length; a
/// row that the clock has not reached yet shows the first color.
pub open spec fn fade_color_pos(tick: int, b: Bounds, x: int, y: int, colors: nat) -> int {
    let q = tick - (y * UNIT + if x % 2 == 0 { 0 } else { UNIT / 2 });
    if q < 0 {
        0
    } else {
        (q / (FADE_BAND * b.height)) % (colors as int)
    }
}

/// Clock after one frame: it moves on by `speed` and, once it reaches two
/// periods, is brought back by whole periods to lie between one and two.
pub open spec fn fade_next_tick(tick: int, speed: int, period: int) -> int {
    let t = tick + speed;
    if t >= 2 * period {
        period + (t - period) % period
    } else {
        t
    }
}

/// Bands of palette colors that drift down the panel and wrap around.
pub struct FadePainter {
    pub bounds: Bounds,
    pub params: PainterParams,
    pub leds: Vec<Color>,
    pub tick: u64,
}

impl FadePainter {
    pub open spec fn wf(&self) -> bool {
        &&& self.bounds.wf()
        &&& self.params.wf()
        &&& self.leds@.len() == self.bounds.size_spec()
        &&& self.tick < fade_tick_bound()
    }

    pub fn new(bounds: Bounds, params: PainterParams) -> (p: FadePainter)
        requires
            bounds.wf(),
            params.wf(),
        ensures
            p.wf(),
            p.bounds == bounds,
            p.params@ == params@,
            p.tick == bounds.height * UNIT,
            forall|i: int| 0 <= i < p.leds@.len() ==> #[trigger] p.leds@[i] == Color::from_hex_spec(0),
    {
        let leds = new_led_string(bounds.size());
        FadePainter { bounds, params, leds, tick: bounds.height as u64 * 1000 }
    }

    /// What one frame does: the relation between the painter before and after it.
    pub open spec fn painted(old: &Self, new: &Self) -> bool {
        &&& new.wf()
        &&& new.bounds == old.bounds
        &&& new.params == old.params
        &&& new.tick == fade_next_tick(
            old.tick as int,
            old.params.speed as int,
            fade_period(old.bounds, old.params.secondary_colors@.len()),
        )
        &&& forall|x: int, y: int|
            0 <= x < old.bounds.width && 0 <= y < old.bounds.height
                ==> #[trigger] new.leds@[physical_index_spec(
                old.bounds.height as int,
                x,
                y,
            )] == old.params.secondary_colors@[fade_color_pos(
                old.tick as int,
                old.bounds,
                x,
                y,
                old.params.secondary_colors@.len(),
            )]
    }

    /// Colors every LED by its band at the current clock and moves the clock on.
    pub fn paint(&mut self)
        requires
            old(self).wf(),
        ensures
            Self::painted(old(self), final(self)),
    {
        let h = self.bounds.height;
        let w = self.bounds.width;
        let n = self.params.secondary_colors.len();
        let tick = self.tick;
        let band: u64 = 700 * (h as u64);
        let mut y: usize = 0;
        while y < h
            invariant
                self.wf(),
                h == self.bounds.height,
                w == self.bounds.width,
                n == self.params.secondary_colors@.len(),
                band == FADE_BAND * h,
                self.bounds == old(self).bounds,
                self.params == old(self).params,
                self.tick == tick,
                tick == old(self).tick,
                y <= h,
                forall|x2: int, y2: int|
                    0 <= x2 < w && 0 <= y2 < y ==> #[trigger] self.leds@[physical_index_spec(
                        h as int,
                        x2,
                        y2,
                    )] == self.params.secondary_colors@[fade_color_pos(
                        tick as int,
                        self.bounds,
                        x2,
                        y2,
                        n as nat,
                    )],
            decreases h - y,
        {
            let mut x: usize = 0;
            while x < w
                invariant
                    self.wf(),
                    h == self.bounds.height,
                    w == self.bounds.width,
                    n == self.params.secondary_colors@.len(),
                    band == FADE_BAND * h,
                    self.bounds == old(self).bounds,
                    self.params == old(self).params,
                    self.tick == tick,
                    tick == old(self).tick,
                    y < h,
                    x <= w,
                    forall|x2: int, y2: int|
                        0 <= x2 < w && 0 <= y2 < y ==> #[trigger] self.leds@[physical_index_spec(
                            h as int,
                            x2,
                            y2,
                        )] == self.params.secondary_colors@[fade_color_pos(
                            tick as int,
                            self.bounds,
                            x2,
                            y2,
                            n as nat,
                        )],
                    forall|x2: int|
                        0 <= x2 < x ==> #[trigger] self.leds@[physical_index_spec(
                            h as int,
                            x2,
                            y as int,
                        )] == self.params.secondary_colors@[fade_color_pos(
                            tick as int,
                            self.bounds,
                            x2,
                            y as int,
                            n as nat,
                        )],
                decreases w - x,
            {
                let offset: u64 = y as u64 * 1000 + if x % 2 == 0 { 0 } else { 500 };
                let pos: usize = if tick < offset {
                    0
                } else {
                    proof {
                        lemma_mod_bound((tick as int - offset as int) / (band as int), n as int);
                    }
                    (((tick - offset) / band) % (n as u64)) as usize
                };
                assert(pos == fade_color_pos(tick as int, self.bounds, x as int, y as int, n as nat));
                let color = self.params.secondary_colors[pos];
                proof {
                    lemma_cell_in_panel(self.bounds, x as int, y as int);
                }
                let index = staggered_index(h, x, 2 * y + x % 2);
                let ghost prev = self.leds@;
                self.leds.set(index, color);
                proof {
                    assert(self.leds@ == prev.update(index as int, color));
                    assert forall|x2: int, y2: int|
                        0 <= x2 < w && 0 <= y2 < y implies #[trigger] self.leds@[physical_index_spec(
                            h as int,
                            x2,
                            y2,
                        )] == self.params.secondary_colors@[fade_color_pos(
                            tick as int,
                            self.bounds,
                            x2,
                            y2,
                            n as nat,
                        )] by {
                        lemma_cell_in_panel(self.bounds, x2, y2);
                        let k = physical_index_spec(h as int, x2, y2);
                        assert(k != physical_index_spec(h as int, x as int, y as int));
                        assert(prev[k] == self.params.secondary_colors@[fade_color_pos(
                            tick as int,
                            self.bounds,
                            x2,
                            y2,
                            n as nat,
                        )]);
                    }
                    assert forall|x2: int| 0 <= x2 < x + 1 implies #[trigger] self.leds@[physical_index_spec(
                        h as int,
                        x2,
                        y as int,
                    )] == self.params.secondary_colors@[fade_color_pos(
                        tick as int,
                        self.bounds,
                        x2,
                        y as int,
                        n as nat,
                    )] by {
                        if x2 != x {
                            lemma_cell_in_panel(self.bounds, x2, y as int);
                            let k = physical_index_spec(h as int, x2, y as int);
                            assert(k != physical_index_spec(h as int, x as int, y as int));
                            assert(prev[k] == self.params.secondary_colors@[fade_color_pos(
                                tick as int,
                                self.bounds,
                                x2,
                                y as int,
                                n as nat,
                            )]);
                        }
                    }
                }
                x += 1;
            }
            y += 1;
        }
        proof {
            assert(h * n <= 4096 * 4096) by (nonlinear_arith)
                requires h <= 4096, n <= 4096;
        }
        let period: u64 = (h as u64) * (n as u64) * 700;
        assert(period >= 1) by (nonlinear_arith)
            requires period == h * n * 700, h >= 1, n >= 1;
        let t: u64 = tick + self.params.speed as u64;
        if t >= 2 * period {
            proof {
                lemma_mod_bound((t - period) as int, period as int);
            }
            self.tick = period + (t - period) % period;
        } else {
            self.tick = t;
        }
    }

    pub fn length(&self) -> (n: usize)
        ensures
            n == self.leds@.len(),
    {
        self.leds.len()
    }

    pub fn get(&self, index: usize) -> (c: Color)
        requires
            index < self.leds@.len(),
        ensures
            c == self.leds@[index as int],
    {
        self.leds[index]
    }

    /// Replaces the parameters; the clock carries on.
    pub fn set_params(&mut self, params: PainterParams)
        requires
            old(self).wf(),
            params.wf(),
        ensures
            final(self).wf(),
            final(self).params == params,
            final(self).bounds == old(self).bounds,
            final(self).leds == old(self).leds,
            final(self).tick == old(self).tick,
    {
        self.params = params;
    }
}

} // verus!
