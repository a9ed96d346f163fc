use vstd::prelude::*;
use rand::rngs::StdRng;
use crate::color::{Color, UNIT};
use crate::geometry::{physical_index, physical_index_spec, lemma_cell_in_panel, Bounds};
use crate::leds::{new_led_string, fade_all};
use crate::params::{PainterParams, dim_colors};
use crate::random::{seeded_rng, random_below};
use crate::trail::Trail;

verus! {

/// Number of drops of a `Raindrops` painter.
pub const DROPS: usize = 8;

/// Size, in thousandths of the panel, of the region that a drop may roam
/// before it is respawned.
pub const RAIN_SCALE: u32 = 2000;

/// A drop on a column of the panel, a whole row, moving one row a step,
/// within the band that spawning and roaming allow.
pub open spec fn drop_ok(b: Bounds, t: Trail) -> bool {
    &&& 0 <= t.head_x < b.width
    &&& t.head_y % 2 == 0
    &&& -2 * b.height <= t.head_y < 4 * b.height
    &&& (t.y_dir == 2 || t.y_dir == -2)
}

/// A freshly spawned drop: above the panel falling, or, for a bidirectional
/// show, below it rising.
pub open spec fn drop_spawned(b: Bounds, bidirectional: bool, t: Trail) -> bool {
    &&& 0 <= t.head_x < b.width
    &&& t.head_y % 2 == 0
    &&& t.x_dir == 0
    &&& t.y_diag_start == 0
    &&& ((-2 * b.height <= t.head_y < 0 && t.y_dir == 2) || (bidirectional && 2 * b.height
        <= t.head_y < 4 * b.height && t.y_dir == -2))
}

/// Index of the LED under a drop's head.
pub open spec fn drop_index(b: Bounds, t: Trail) -> int {
    physical_index_spec(b.height as int, t.head_x as int, t.head_y / 2)
}

/// Some drop among the first `upto` is on the panel at LED `k`.
pub open spec fn drop_lights(b: Bounds, drops: Seq<Trail>, upto: int, k: int) -> bool {
    exists|j: int|
        0 <= j < upto && b.in_y_spec(drops[j].head_y as int) && #[trigger] drop_index(b, drops[j]) == k
}

/// Left to itself a drop leaves the roaming region within `3 * height + 1`
/// steps, so none can stay out of respawn for good.
pub proof fn lemma_drop_leaves(b: Bounds, t: Trail)
    requires
        b.wf(),
        drop_ok(b, t),
    ensures
        exists|k: int|
            0 <= k <= 3 * b.height + 1 && !b.in_scale_spec(
                t.head_x as int,
                #[trigger] (t.head_y + k * t.y_dir),
                RAIN_SCALE as int,
            ),
{
    let h = b.height as int;
    let y = t.head_y as int;
    let k = if t.y_dir == 2 {
        if y >= 3 * h { 0 } else { (3 * h - y + 1) / 2 }
    } else {
        if y <= -h { 0 } else { (y + h + 1) / 2 }
    };
    let yk = t.head_y + k * t.y_dir;
    if t.y_dir == 2 {
        assert(k * t.y_dir == 2 * k);
    } else {
        assert(k * t.y_dir == -2 * k) by (nonlinear_arith)
            requires t.y_dir == -2;
    }
    lemma_roaming_region(b, t.head_x as int, yk);

}

/// On the panel's columns, the roaming region is the band of half-rows
/// strictly between `-height` and `3 * height`.
pub proof fn lemma_roaming_region(b: Bounds, x: int, y: int)
    requires
        b.wf(),
        0 <= x < b.width,
    ensures
        b.in_scale_spec(x, y, RAIN_SCALE as int) <==> -(b.height as int) < y < 3 * b.height,
{
    let h = b.height as int;
    let w = b.width as int;
    assert(h * (UNIT as int - RAIN_SCALE as int) == -1000 * h) by (nonlinear_arith);
    assert(h * (UNIT as int + RAIN_SCALE as int) == 3000 * h) by (nonlinear_arith);
    assert(w * (UNIT as int - RAIN_SCALE as int) == -1000 * w) by (nonlinear_arith);
    assert(w * (UNIT as int + RAIN_SCALE as int) == 3000 * w) by (nonlinear_arith);
    assert(2 * (UNIT as int) * x == 2000 * x) by (nonlinear_arith);
    assert((UNIT as int) * y == 1000 * y) by (nonlinear_arith);
}

/// Drops that fall down the panel leaving fading tails.
pub struct Raindrops {
    pub bounds: Bounds,
    pub params: PainterParams,
    pub leds: Vec<Color>,
    pub tick: u64,
    pub trails: Vec<Trail>,
    pub rng: StdRng,
}

impl Raindrops {
    pub open spec fn wf(&self) -> bool {
        &&& self.bounds.wf()
        &&& self.params.wf()
        &&& self.leds@.len() == self.bounds.size_spec()
        &&& self.tick < UNIT
        &&& forall|i: int| 0 <= i < self.trails@.len() ==> drop_ok(self.bounds, #[trigger] self.trails@[i])
    }

    /// Eight drops at random columns, each some random number of rows above
    /// the panel, falling; the generator is seeded with `seed`.
    pub fn new(bounds: Bounds, params: PainterParams, seed: u64) -> (p: Raindrops)
        requires
            bounds.wf(),
            params.wf(),
        ensures
            p.wf(),
            p.bounds == bounds,
            p.params@ == params@,
            p.tick == 0,
            p.trails@.len() == DROPS,
            forall|i: int| 0 <= i < DROPS ==> drop_spawned(bounds, false, #[trigger] p.trails@[i]),
            forall|i: int| 0 <= i < p.leds@.len() ==> #[trigger] p.leds@[i] == Color::from_hex_spec(0),
    {
        let mut rng = seeded_rng(seed);
        let w = bounds.width as i32;
        let h = bounds.height as i32;
        let mut trails: Vec<Trail> = Vec::with_capacity(12);
        let mut i: usize = 0;
        while i < DROPS
            invariant
                bounds.wf(),
                w == bounds.width,
                h == bounds.height,
                i <= DROPS,
                trails@.len() == i,
                forall|j: int| 0 <= j < i ==> drop_spawned(bounds, false, #[trigger] trails@[j]),
            decreases DROPS - i,
        {
            let x = random_below(&mut rng, bounds.width) as i32;
            let y = random_below(&mut rng, bounds.height) as i32 - h;
            trails.push(Trail { head_x: x, head_y: 2 * y, x_dir: 0, y_dir: 2, y_diag_start: 0 });
            i += 1;
        }
        let leds = new_led_string(bounds.size());
        Raindrops { bounds, params, leds, tick: 0, trails, rng }
    }

    /// Moves a drop that has left the roaming region to a fresh start.
    fn respawn(&mut self, t: Trail) -> (r: Trail)
        requires
            old(self).wf(),
        ensures
            final(self).wf(),
            final(self).bounds == old(self).bounds,
            final(self).params == old(self).params,
            final(self).leds == old(self).leds,
            final(self).tick == old(self).tick,
            final(self).trails == old(self).trails,
            drop_spawned(old(self).bounds, old(self).params.bidirectional, r),
    {
        let w = self.bounds.width as i32;
        let h = self.bounds.height as i32;
        let x = random_below(&mut self.rng, self.bounds.width) as i32;
        let downward = !self.params.bidirectional || random_below(&mut self.rng, 2) == 1;
        if downward {
            let y = random_below(&mut self.rng, self.bounds.height) as i32 - h;
            Trail { head_x: x, head_y: 2 * y, x_dir: 0, y_dir: 2, y_diag_start: 0 }
        } else {
            let y = h + random_below(&mut self.rng, self.bounds.height) as i32;
            Trail { head_x: x, head_y: 2 * y, x_dir: 0, y_dir: -2, y_diag_start: 0 }
        }
    }

    /// What one frame does: the relation between the painter before and after it.
    pub open spec fn painted(old: &Self, new: &Self) -> bool {
        &&& new.wf()
        &&& new.bounds == old.bounds
        &&& new.params == old.params
        &&& new.trails@.len() == old.trails@.len()
        &&& ({
            let t = old.tick + old.params.speed;
            let advance = t >= UNIT;
            &&& new.tick == (if advance { 0 } else { t })
            &&& forall|i: int|
                0 <= i < old.trails@.len() ==> {
                    let d = #[trigger] old.trails@[i];
                    let moved = Trail {
                        head_y: if advance { (d.head_y + d.y_dir) as i32 } else { d.head_y },
                        ..d
                    };
                    if old.bounds.in_scale_spec(
                        moved.head_x as int,
                        moved.head_y as int,
                        RAIN_SCALE as int,
                    ) {
                        new.trails@[i] == moved
                    } else {
                        drop_spawned(
                            old.bounds,
                            old.params.bidirectional,
                            new.trails@[i],
                        )
                    }
                }
        })
        &&& new.leds@.len() == old.leds@.len()
        &&& forall|k: int|
            0 <= k < old.leds@.len() ==> #[trigger] new.leds@[k] == if drop_lights(
                old.bounds,
                old.trails@,
                old.trails@.len() as int,
                k,
            ) {
                old.params.color
            } else {
                dim_colors(old.leds@, old.params.fade as int)[k]
            }
    }

    /// Fades the panel, lights the LED under each drop on the panel, moves
    /// the drops a row on a step boundary, and respawns those that left the
    /// roaming region.
    pub fn paint(&mut self)
        requires
            old(self).wf(),
        ensures
            Self::painted(old(self), final(self)),
    {
        let t = self.tick + self.params.speed as u64;
        let advance = t >= 1000;
        self.tick = if advance { 0 } else { t };
        fade_all(&mut self.leds, self.params.fade);
        let ghost faded = self.leds@;
        let h = self.bounds.height;
        let n = self.trails.len();
        let color = self.params.color;
        let mut i: usize = 0;
        while i < n
            invariant
                self.wf(),
                self.bounds == old(self).bounds,
                self.params == old(self).params,
                h == self.bounds.height,
                color == self.params.color,
                self.tick == (if advance { 0 } else { t }),
                advance == (t >= UNIT),
                t == old(self).tick + old(self).params.speed,
                n == self.trails@.len(),
                n == old(self).trails@.len(),
                i <= n,
                faded == dim_colors(old(self).leds@, old(self).params.fade as int),
                self.leds@.len() == faded.len(),
                forall|j: int| i <= j < n ==> #[trigger] self.trails@[j] == old(self).trails@[j],
                forall|j: int|
                    0 <= j < i ==> {
                        let d = #[trigger] old(self).trails@[j];
                        let moved = Trail {
                            head_y: if advance { (d.head_y + d.y_dir) as i32 } else { d.head_y },
                            ..d
                        };
                        if self.bounds.in_scale_spec(
                            moved.head_x as int,
                            moved.head_y as int,
                            RAIN_SCALE as int,
                        ) {
                            self.trails@[j] == moved
                        } else {
                            drop_spawned(self.bounds, self.params.bidirectional, self.trails@[j])
                        }
                    },
                forall|k: int|
                    0 <= k < faded.len() ==> #[trigger] self.leds@[k] == if drop_lights(
                        self.bounds,
                        old(self).trails@,
                        i as int,
                        k,
                    ) {
                        color
                    } else {
                        faded[k]
                    },
            decreases n - i,
        {
            let d = self.trails[i];
            assert(d == old(self).trails@[i as int]);
            assert(drop_ok(self.bounds, d));
            let ghost prev = self.leds@;
            if self.bounds.in_y(d.head_y) {
                proof {
                    lemma_cell_in_panel(self.bounds, d.head_x as int, d.head_y / 2);
                }
                let index = physical_index(h, d.head_x as usize, (d.head_y / 2) as usize);
                self.leds.set(index, color);
            }
            proof {
                assert forall|k: int| 0 <= k < faded.len() implies #[trigger] self.leds@[k] == if drop_lights(
                    self.bounds,
                    old(self).trails@,
                    i + 1,
                    k,
                ) {
                    color
                } else {
                    faded[k]
                } by {
                    if self.bounds.in_y_spec(d.head_y as int) && drop_index(self.bounds, d) == k {
                        assert(drop_lights(self.bounds, old(self).trails@, i + 1, k));
                    } else {
                        assert(self.leds@[k] == prev[k]);
                        if drop_lights(self.bounds, old(self).trails@, i + 1, k) {
                            let j = choose|j: int|
                                0 <= j < i + 1 && self.bounds.in_y_spec(
                                    old(self).trails@[j].head_y as int,
                                ) && #[trigger] drop_index(self.bounds, old(self).trails@[j]) == k;
                            assert(j != i);
                            assert(drop_lights(self.bounds, old(self).trails@, i as int, k));
                        } else {
                            if drop_lights(self.bounds, old(self).trails@, i as int, k) {
                                let j = choose|j: int|
                                    0 <= j < i && self.bounds.in_y_spec(
                                        old(self).trails@[j].head_y as int,
                                    ) && #[trigger] drop_index(self.bounds, old(self).trails@[j])
                                        == k;
                                assert(drop_lights(self.bounds, old(self).trails@, i + 1, k));
                            }
                        }
                    }
                }
            }
            let mut m = d;
            if advance {
                m.head_y = d.head_y + d.y_dir;
            }
            let next = if self.bounds.in_scale(m.head_x, m.head_y, RAIN_SCALE) {
                m
            } else {
                self.respawn(m)
            };
            proof {
                lemma_roaming_region(self.bounds, m.head_x as int, m.head_y as int);
            }
            assert(drop_ok(self.bounds, next));
            let ghost before = self.trails@;
            self.trails.set(i, next);
            proof {
                assert(self.trails@ == before.update(i as int, next));
                assert forall|j: int| 0 <= j < self.trails@.len() implies drop_ok(
                    self.bounds,
                    #[trigger] self.trails@[j],
                ) by {
                    if j != i {
                        assert(self.trails@[j] == before[j]);
                    }
                }
            }
            i += 1;
        }
    }

    pub fn length(&self) -> (n: usize)
        ensures
            n == self.leds@.len(),
    {
        self.leds.len()
    }

    pub fn get(&self, index: usize) -> (c: Color)
        requires
            index < self.leds@.len(),
        ensures
            c == self.leds@[index as int],
    {
        self.leds[index]
    }

    /// Replaces the parameters; the drops carry on.
    pub fn set_params(&mut self, params: PainterParams)
        requires
            old(self).wf(),
            params.wf(),
        ensures
            final(self).wf(),
            final(self).params == params,
            final(self).bounds == old(self).bounds,
            final(self).leds == old(self).leds,
            final(self).tick == old(self).tick,
            final(self).trails == old(self).trails,
    {
        self.params = params;
    }
}

} // verus!
