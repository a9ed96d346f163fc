use vstd::prelude::*;
use crate::color::{Color, UNIT};
use crate::geometry::{physical_index, physical_index_spec, lemma_cell_in_panel, Bounds};
use crate::leds::new_led_string;
use crate::params::PainterParams;
use vstd::arithmetic::div_mod::lemma_fundamental_div_mod;

verus! {

/// How far the sweep runs, in panel heights, before it starts over.
pub const SWEEP_GROWTH: u64 = 2;

/// Distance in thousandths of a row that the sweep center covers before the
/// clock starts over.
pub open spec fn sweep_limit(b: Bounds) -> int {
    SWEEP_GROWTH * UNIT * b.height
}

/// Sweep center in thousandths of a row at clock `tick`.
pub open spec fn sweep_center(tick: int, speed: int) -> int {
    tick * speed
}

/// Brightness in thousandths before cubing: it falls off linearly with the
/// distance from the center, by half per row ahead of it and a tenth per row
/// behind it, and never goes below zero.
pub open spec fn sweep_base(y: int, center: int) -> int {
    if y * UNIT >= center {
        let d = (y * UNIT - center) / 2;
        if d >= UNIT { 0 } else { UNIT - d }
    } else {
        let d = (center - y * UNIT) / 10;
        if d >= UNIT { 0 } else { UNIT - d }
    }
}

/// Brightness in thousandths of row `y`: the cube of `sweep_base`.
pub open spec fn sweep_level(y: int, center: int) -> int {
    let b = sweep_base(y, center);
    b * b * b / (UNIT * UNIT)
}

/// Clock after one frame: it stands still at speed zero, and starts over at
/// zero once the center has reached `limit`.
pub open spec fn sweep_next_tick(tick: int, speed: int, limit: int) -> int {
    if speed == 0 {
        tick
    } else if (tick + 1) * speed >= limit {
        0
    } else {
        tick + 1
    }
}

/// Clock after `n` frames.
pub open spec fn sweep_tick_after(tick: int, speed: int, limit: int, n: nat) -> int
    decreases n,
{
    if n == 0 {
        tick
    } else {
        sweep_next_tick(sweep_tick_after(tick, speed, limit, (n - 1) as nat), speed, limit)
    }
}

/// Starting from any clock, the sweep clock starts over at zero within
/// `ceil(limit / speed)` frames: `ceil(height * growth / speed)` for a panel.
pub proof fn lemma_sweep_wraps(tick: int, speed: int, limit: int)
    requires
        tick >= 0,
        speed >= 1,
        limit >= 1,
    ensures
        exists|k: nat|
            1 <= k <= (limit + speed - 1) / speed && #[trigger] sweep_tick_after(tick, speed, limit, k)
                == 0,
{
    let n = (limit + speed - 1) / speed;
    lemma_fundamental_div_mod(limit + speed - 1, speed);
    assert(n * speed >= limit && n >= 1) by (nonlinear_arith)
        requires
            limit + speed - 1 == speed * n + (limit + speed - 1) % speed,
            0 <= (limit + speed - 1) % speed < speed,
            limit >= 1,
            speed >= 1,
    ;
    if forall|j: nat| 1 <= j <= n ==> #[trigger] sweep_tick_after(tick, speed, limit, j) != 0 {
        lemma_sweep_climbs(tick, speed, limit, (n - 1) as nat);
        assert((tick + n) * speed >= limit) by (nonlinear_arith)
            requires n * speed >= limit, tick >= 0, speed >= 1;
        assert(sweep_tick_after(tick, speed, limit, n as nat) == 0);
    }
}

/// Until the sweep clock starts over it counts frames one by one.
proof fn lemma_sweep_climbs(tick: int, speed: int, limit: int, k: nat)
    requires
        tick >= 0,
        speed >= 1,
        forall|j: nat| 1 <= j <= k ==> #[trigger] sweep_tick_after(tick, speed, limit, j) != 0,
    ensures
        sweep_tick_after(tick, speed, limit, k) == tick + k,
    decreases k,
{
    if k > 0 {
        lemma_sweep_climbs(tick, speed, limit, (k - 1) as nat);
        assert(sweep_tick_after(tick, speed, limit, k) != 0);
    }
}

/// Physical row drawn for logical row `y`.
pub open spec fn sweep_row(flip: bool, height: int, y: int) -> int {
    if flip { height - y - 1 } else { y }
}

/// A single lit band that sweeps down the panel.
pub struct SweepPainter {
    pub bounds: Bounds,
    pub params: PainterParams,
    pub leds: Vec<Color>,
    pub tick: u64,
    pub flip: bool,
}

impl SweepPainter {
    pub open spec fn wf(&self) -> bool {
        &&& self.bounds.wf()
        &&& self.params.wf()
        &&& self.leds@.len() == self.bounds.size_spec()
        &&& self.tick <= sweep_limit(self.bounds)
    }

    pub fn new(width: usize, height: usize, params: PainterParams) -> (p: SweepPainter)
        requires
            params.wf(),
            (Bounds { height, width }).wf(),
        ensures
            p.wf(),
            p.bounds == (Bounds { height, width }),
            p.params@ == params@,
            p.tick == 0,
            !p.flip,
            forall|i: int| 0 <= i < p.leds@.len() ==> #[trigger] p.leds@[i] == Color::from_hex_spec(0),
    {
        let bounds = Bounds { height, width };
        let leds = new_led_string(bounds.size());
        SweepPainter { bounds, params, leds, tick: 0, flip: false }
    }

    /// What one frame does: the relation between the painter before and after it.
    pub open spec fn painted(old: &Self, new: &Self) -> bool {
        &&& new.wf()
        &&& new.bounds == old.bounds
        &&& new.params == old.params
        &&& new.tick == sweep_next_tick(
            old.tick as int,
            old.params.speed as int,
            sweep_limit(old.bounds),
        )
        &&& new.flip == (if old.params.speed > 0 && new.tick == 0
            && old.params.bidirectional {
            !old.flip
        } else {
            old.flip
        })
        &&& forall|x: int, y: int|
            0 <= x < old.bounds.width && 0 <= y < old.bounds.height
                ==> #[trigger] new.leds@[physical_index_spec(
                old.bounds.height as int,
                x,
                sweep_row(old.flip, old.bounds.height as int, y),
            )] == old.params.color.scaled_spec(
                sweep_level(y, sweep_center(old.tick as int, old.params.speed as int)),
            )
    }

    /// Draws one frame with the band at the current clock and moves the clock on.
    pub fn paint(&mut self)
        requires
            old(self).wf(),
        ensures
            Self::painted(old(self), final(self)),
    {
        let h = self.bounds.height;
        let w = self.bounds.width;
        let speed = self.params.speed as u64;
        let limit: u64 = 2000 * (h as u64);
        proof {
            assert(self.tick * speed <= 8192000 * 0x1_0000_0000) by (nonlinear_arith)
                requires self.tick <= 8192000, speed <= 0xffff_ffff;
        }
        let center: u64 = self.tick * speed;
        let tick0 = self.tick;
        assert(h <= 4096);
        assert(sweep_limit(self.bounds) == 2000 * h);
        assert(tick0 <= 8192000);
        let color = self.params.color;
        let flip = self.flip;
        let mut y: usize = 0;
        while y < h
            invariant
                self.wf(),
                h == self.bounds.height,
                w == self.bounds.width,
                self.bounds == old(self).bounds,
                self.params == old(self).params,
                self.tick == old(self).tick,
                self.flip == old(self).flip,
                flip == self.flip,
                color == self.params.color,
                center == sweep_center(self.tick as int, self.params.speed as int),
                y <= h,
                forall|x2: int, y2: int|
                    0 <= x2 < w && 0 <= y2 < y ==> #[trigger] self.leds@[physical_index_spec(
                        h as int,
                        x2,
                        sweep_row(flip, h as int, y2),
                    )] == color.scaled_spec(sweep_level(y2, center as int)),
            decreases h - y,
        {
            let yf: u64 = y as u64 * 1000;
            let base: u64 = if yf >= center {
                let d = (yf - center) / 2;
                if d >= 1000 { 0 } else { 1000 - d }
            } else {
                let d = (center - yf) / 10;
                if d >= 1000 { 0 } else { 1000 - d }
            };
            assert(base == sweep_base(y as int, center as int));
            proof {
                assert(base * base * base <= 1000000000 && base * base <= 1000000) by (nonlinear_arith)
                    requires base <= 1000;
                assert(base * base * base / 1000000 <= 1000) by (nonlinear_arith)
                    requires base * base * base <= 1000000000;
            }
            let level: u32 = (base * base * base / 1_000_000) as u32;
            let row: usize = if flip { h - y - 1 } else { y };
            let lit = color.scaled(level);
            let mut x: usize = 0;
            while x < w
                invariant
                    self.wf(),
                    h == self.bounds.height,
                    w == self.bounds.width,
                    self.bounds == old(self).bounds,
                    self.params == old(self).params,
                    self.tick == old(self).tick,
                    self.flip == old(self).flip,
                    flip == self.flip,
                    color == self.params.color,
                    y < h,
                    row == sweep_row(flip, h as int, y as int),
                    lit == color.scaled_spec(sweep_level(y as int, center as int)),
                    x <= w,
                    forall|x2: int, y2: int|
                        0 <= x2 < w && 0 <= y2 < y ==> #[trigger] self.leds@[physical_index_spec(
                            h as int,
                            x2,
                            sweep_row(flip, h as int, y2),
                        )] == color.scaled_spec(sweep_level(y2, center as int)),
                    forall|x2: int|
                        0 <= x2 < x ==> #[trigger] self.leds@[physical_index_spec(
                            h as int,
                            x2,
                            row as int,
                        )] == lit,
                decreases w - x,
            {
                proof {
                    lemma_cell_in_panel(self.bounds, x as int, row as int);
                }
                let index = physical_index(h, x, row);
                let ghost prev = self.leds@;
                self.leds.set(index, lit);
                proof {
                    assert(self.leds@ == prev.update(index as int, lit));
                    assert forall|x2: int, y2: int|
                        0 <= x2 < w && 0 <= y2 < y implies #[trigger] self.leds@[physical_index_spec(
                            h as int,
                            x2,
                            sweep_row(flip, h as int, y2),
                        )] == color.scaled_spec(sweep_level(y2, center as int)) by {
                        lemma_cell_in_panel(self.bounds, x2, sweep_row(flip, h as int, y2));
                        let k = physical_index_spec(h as int, x2, sweep_row(flip, h as int, y2));
                        assert(k != physical_index_spec(h as int, x as int, row as int));
                        assert(prev[k] == color.scaled_spec(sweep_level(y2, center as int)));
                    }
                    assert forall|x2: int| 0 <= x2 < x + 1 implies #[trigger] self.leds@[physical_index_spec(
                        h as int,
                        x2,
                        row as int,
                    )] == lit by {
                        if x2 != x {
                            lemma_cell_in_panel(self.bounds, x2, row as int);
                            let k = physical_index_spec(h as int, x2, row as int);
                            assert(k != physical_index_spec(h as int, x as int, row as int));
                            assert(prev[k] == lit);
                        }
                    }
                }
                x += 1;
            }
            y += 1;
        }
        if speed > 0 {
            let next = tick0 + 1;
            proof {
                assert(next * speed <= 8192001 * 0x1_0000_0000) by (nonlinear_arith)
                    requires next <= 8192001, speed <= 0xffff_ffff;
            }
            if next * speed >= limit {
                self.tick = 0;
                if self.params.bidirectional {
                    self.flip = !self.flip;
                }
            } else {
                proof {
                    assert(next < limit) by (nonlinear_arith)
                        requires next * speed < limit, speed >= 1, next >= 0;
                }
                self.tick = next;
            }
        }
    }

    pub fn length(&self) -> (n: usize)
        ensures
            n == self.leds@.len(),
    {
        self.leds.len()
    }

    pub fn get(&self, index: usize) -> (c: Color)
        requires
            index < self.leds@.len(),
        ensures
            c == self.leds@[index as int],
    {
        self.leds[index]
    }

    /// Replaces the parameters; the clock and the direction carry on.
    pub fn set_params(&mut self, params: PainterParams)
        requires
            old(self).wf(),
            params.wf(),
        ensures
            final(self).wf(),
            final(self).params == params,
            final(self).bounds == old(self).bounds,
            final(self).leds == old(self).leds,
            final(self).tick == old(self).tick,
            final(self).flip == old(self).flip,
    {
        self.params = params;
    }
}

} // verus!
