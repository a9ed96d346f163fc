use vstd::prelude::*;
use rand::rngs::StdRng;
use crate::color::{Color, UNIT};
use crate::geometry::{staggered_index, physical_index_spec, lemma_cell_in_panel, Bounds};
use crate::leds::{new_led_string, fade_all};
use crate::params::{PainterParams, dim_colors};
use crate::random::{seeded_rng, random_below};
use crate::trail::Trail;

verus! {

/// Rows beyond the panel's edges that a trail travels before it resets.
pub const LINE_OVERRUN: i32 = 10;

/// Panels that the line painter can draw on: an even number of columns, so
/// that both start corners are legal staggered positions, and more than ten
/// rows, so that the turning row can be drawn between the fifth row from
/// either edge.
pub open spec fn line_bounds_ok(b: Bounds) -> bool {
    &&& b.wf()
    &&& b.width % 2 == 0
    &&& b.height > 10
}

/// Lowest half-row a trail reaches.
pub open spec fn line_low(b: Bounds) -> int {
    -2 * LINE_OVERRUN - 4
}

/// Highest half-row a trail reaches.
pub open spec fn line_high(b: Bounds) -> int {
    2 * b.height + 2 * LINE_OVERRUN + 4
}

/// Shape of a trail that holds at every step: on a column of the panel, at a
/// half-row of the column's parity, moving two half-rows straight down or up
/// or one half-row along a diagonal, with its turning row on or near the
/// panel.
pub open spec fn line_trail_shape(b: Bounds, t: Trail) -> bool {
    &&& 0 <= t.head_x < b.width
    &&& (t.head_y - t.head_x) % 2 == 0
    &&& 0 <= t.y_diag_start <= b.height + 11
    &&& (t.x_dir == 0 && (t.y_dir == 2 || t.y_dir == -2)) || ((t.x_dir == 1 || t.x_dir == -1) && (
    t.y_dir == 1 || t.y_dir == -1))
}

/// A trail between frames: its shape, and a head far enough from the outer
/// limits that its next step stays within them.
pub open spec fn line_trail_ok(b: Bounds, t: Trail) -> bool {
    let lo = line_low(b);
    let hi = line_high(b);
    &&& line_trail_shape(b, t)
    &&& t.y_dir == 1 ==> lo + 1 <= t.head_y <= hi - 2
    &&& t.y_dir == 2 ==> lo <= t.head_y <= hi - 2
    &&& t.y_dir == -1 ==> lo + 2 <= t.head_y <= hi - 1
    &&& t.y_dir == -2 ==> lo + 2 <= t.head_y <= hi
}

/// A trail right after its step.
pub open spec fn line_trail_moved(b: Bounds, t: Trail) -> bool {
    let lo = line_low(b);
    let hi = line_high(b);
    &&& line_trail_shape(b, t)
    &&& t.y_dir == 1 ==> lo + 2 <= t.head_y <= hi - 1
    &&& t.y_dir == 2 ==> lo + 2 <= t.head_y <= hi
    &&& t.y_dir == -1 ==> lo + 1 <= t.head_y <= hi - 2
    &&& t.y_dir == -2 ==> lo <= t.head_y <= hi - 2
}

/// First part of a step: a straight trail that reaches its turning row goes
/// diagonal, toward the middle from the left edge and away from it otherwise.
pub open spec fn line_diagonal(t: Trail) -> Trail {
    if (t.head_y == 2 * t.y_diag_start || t.head_y == 2 * t.y_diag_start + 1) && t.x_dir == 0 {
        Trail {
            y_dir: if t.y_dir > 0 { 1i32 } else { -1i32 },
            x_dir: if t.head_x == 0 { 1i32 } else { -1i32 },
            ..t
        }
    } else {
        t
    }
}

/// Second part: on the two middle columns the sideways direction reverses.
pub open spec fn line_bounce(b: Bounds, t: Trail) -> Trail {
    let half = (b.width / 2) as int;
    if t.head_x == half || t.head_x == half - 1 {
        Trail { x_dir: (-t.x_dir) as i32, ..t }
    } else {
        t
    }
}

/// Third part: a trail about to leave the panel sideways goes straight again.
pub open spec fn line_straighten(b: Bounds, t: Trail) -> Trail {
    if !b.in_x_spec(t.head_x + t.x_dir) {
        Trail { y_dir: (t.y_dir * 2) as i32, x_dir: 0, ..t }
    } else {
        t
    }
}

/// One step of a trail: the three turns, then the move.
pub open spec fn line_step(b: Bounds, t: Trail) -> Trail {
    let s = line_straighten(b, line_bounce(b, line_diagonal(t)));
    Trail { head_x: (s.head_x + s.x_dir) as i32, head_y: (s.head_y + s.y_dir) as i32, ..s }
}

/// The trail is more than `LINE_OVERRUN` rows beyond the top or bottom edge.
pub open spec fn line_out(b: Bounds, t: Trail) -> bool {
    t.head_y > 2 * (b.height + LINE_OVERRUN) || t.head_y < -2 * LINE_OVERRUN
}

/// A trail after a reset: its sideways direction reverses, it takes the new
/// turning row, and it either reverses its vertical direction (bidirectional)
/// or goes back to the top row of its column.
pub open spec fn line_reset(t: Trail, diag: int, bidirectional: bool) -> Trail {
    Trail {
        x_dir: (-t.x_dir) as i32,
        y_diag_start: diag as i32,
        y_dir: if bidirectional { (-t.y_dir) as i32 } else { t.y_dir },
        head_y: if bidirectional { t.head_y } else if t.head_x % 2 == 0 { 0i32 } else { 1i32 },
        ..t
    }
}

/// Every trail of `trails` reset with turning row `diag`.
pub open spec fn line_reset_all(trails: Seq<Trail>, diag: int, bidirectional: bool) -> Seq<Trail> {
    Seq::new(trails.len(), |i: int| line_reset(trails[i], diag, bidirectional))
}

/// Index of the LED under a trail's head.
pub open spec fn trail_index(b: Bounds, t: Trail) -> int {
    physical_index_spec(b.height as int, t.head_x as int, t.head_y / 2)
}

/// Some trail among the first `upto` is on the panel at LED `k`.
pub open spec fn trail_lights(b: Bounds, trails: Seq<Trail>, upto: int, k: int) -> bool {
    exists|j: int|
        0 <= j < upto && b.in_x_spec(trails[j].head_x as int) && b.in_y_spec(trails[j].head_y as int)
            && #[trigger] trail_index(b, trails[j]) == k
}

proof fn lemma_step_moves(b: Bounds, t: Trail)
    requires
        line_bounds_ok(b),
        line_trail_ok(b, t),
    ensures
        line_trail_moved(b, line_step(b, t)),
{
}

proof fn lemma_settle(b: Bounds, m: Trail, diag: int, bidirectional: bool)
    requires
        line_bounds_ok(b),
        line_trail_moved(b, m),
        5 <= diag < b.height - 5,
    ensures
        line_trail_ok(b, line_reset(m, diag, bidirectional)),
        !line_out(b, m) ==> line_trail_ok(b, m),
{
}

/// One step of trail `t`.
fn step(bounds: &Bounds, t: Trail) -> (r: Trail)
    requires
        line_bounds_ok(*bounds),
        line_trail_ok(*bounds, t),
    ensures
        r == line_step(*bounds, t),
{
    let mut t = t;
    if (t.head_y == 2 * t.y_diag_start || t.head_y == 2 * t.y_diag_start + 1) && t.x_dir == 0 {
        t.y_dir = if t.y_dir > 0 { 1 } else { -1 };
        t.x_dir = if t.head_x == 0 { 1 } else { -1 };
    }
    let half = bounds.width as i32 / 2;
    if t.head_x == half || t.head_x == half - 1 {
        t.x_dir = -t.x_dir;
    }
    if !bounds.in_x(t.head_x + t.x_dir) {
        t.y_dir = t.y_dir * 2;
        t.x_dir = 0;
    }
    t.head_x = t.head_x + t.x_dir;
    t.head_y = t.head_y + t.y_dir;
    t
}

/// Two trails that run down from the top corners, cross diagonally, bounce
/// off the middle and leave fading tails.
pub struct LinePainter {
    pub bounds: Bounds,
    pub params: PainterParams,
    pub leds: Vec<Color>,
    pub tick: u64,
    pub color_index: usize,
    pub trails: Vec<Trail>,
    pub rng: StdRng,
}

impl LinePainter {
    pub open spec fn wf(&self) -> bool {
        &&& line_bounds_ok(self.bounds)
        &&& self.params.wf()
        &&& self.leds@.len() == self.bounds.size_spec()
        &&& self.tick < UNIT
        &&& forall|i: int|
            0 <= i < self.trails@.len() ==> line_trail_ok(self.bounds, #[trigger] self.trails@[i])
    }

    /// Two straight trails at the top corners, turning at row 20; the
    /// generator is seeded with `seed`.
    pub fn new(width: usize, height: usize, params: PainterParams, seed: u64) -> (p: LinePainter)
        requires
            line_bounds_ok(Bounds { height, width }),
            params.wf(),
        ensures
            p.wf(),
            p.bounds == (Bounds { height, width }),
            p.params@ == params@,
            p.tick == 0,
            p.color_index == 0,
            p.trails@ == seq![
                Trail { head_x: 0, head_y: 0, x_dir: 0, y_dir: 2, y_diag_start: 20 },
                Trail { head_x: (width - 1) as i32, head_y: 1, x_dir: 0, y_dir: 2, y_diag_start: 20 },
            ],
            forall|i: int| 0 <= i < p.leds@.len() ==> #[trigger] p.leds@[i] == Color::from_hex_spec(0),
    {
        let bounds = Bounds { height, width };
        let mut trails: Vec<Trail> = Vec::with_capacity(2);
        trails.push(Trail { head_x: 0, head_y: 0, x_dir: 0, y_dir: 2, y_diag_start: 20 });
        trails.push(
            Trail { head_x: width as i32 - 1, head_y: 1, x_dir: 0, y_dir: 2, y_diag_start: 20 },
        );
        let leds = new_led_string(bounds.size());
        let p = LinePainter {
            bounds,
            params,
            leds,
            tick: 0,
            color_index: 0,
            trails,
            rng: seeded_rng(seed),
        };
        assert(p.trails@ == seq![
            Trail { head_x: 0, head_y: 0, x_dir: 0, y_dir: 2, y_diag_start: 20 },
            Trail { head_x: (width - 1) as i32, head_y: 1, x_dir: 0, y_dir: 2, y_diag_start: 20 },
        ]);
        p
    }

    /// What one frame does: the relation between the painter before and after it.
    pub open spec fn painted(old: &Self, new: &Self) -> bool {
        &&& new.wf()
        &&& new.bounds == old.bounds
        &&& new.params == old.params
        &&& new.trails@.len() == old.trails@.len()
        &&& ({
            let t = old.tick + old.params.speed;
            let advance = t >= UNIT;
            let moved = Seq::new(
                old.trails@.len(),
                |i: int| line_step(old.bounds, old.trails@[i]),
            );
            let reset = exists|i: int|
                0 <= i < moved.len() && #[trigger] line_out(old.bounds, moved[i]);
            &&& new.tick == (if advance { 0 } else { t })
            &&& !advance ==> new.trails@ == old.trails@ && new.color_index
                == old.color_index
            &&& advance && !reset ==> new.trails@ == moved && new.color_index
                == old.color_index
            &&& advance && reset ==> new.color_index == (if old.color_index
                == usize::MAX {
                0
            } else {
                old.color_index + 1
            }) && exists|diag: int|
                5 <= diag < old.bounds.height - 5 && new.trails@
                    == #[trigger] line_reset_all(moved, diag, old.params.bidirectional)
        })
        &&& new.leds@.len() == old.leds@.len()
        &&& forall|k: int|
            0 <= k < old.leds@.len() ==> #[trigger] new.leds@[k] == if trail_lights(
                old.bounds,
                old.trails@,
                old.trails@.len() as int,
                k,
            ) {
                old.params@.secondary_colors[old.color_index as int % old.params@.secondary_colors.len() as int]
            } else {
                dim_colors(old.leds@, old.params.fade as int)[k]
            }
    }

    /// Fades the panel, lights the LED under each trail on the panel, and on
    /// a step boundary moves the trails; when one has run off the top or the
    /// bottom, the palette moves on, a new turning row is drawn, and every
    /// trail resets.
    pub fn paint(&mut self)
        requires
            old(self).wf(),
        ensures
            Self::painted(old(self), final(self)),
    {
        let t = self.tick + self.params.speed as u64;
        let advance = t >= 1000;
        self.tick = if advance { 0 } else { t };
        fade_all(&mut self.leds, self.params.fade);
        let ghost faded = self.leds@;
        let ghost moved = Seq::new(
            old(self).trails@.len(),
            |i: int| line_step(old(self).bounds, old(self).trails@[i]),
        );
        let h = self.bounds.height;
        let n = self.trails.len();
        let color = self.params.secondary_colors[self.color_index % self.params.secondary_colors.len()];
        let mut reset = false;
        let b = self.bounds;
        let mut i: usize = 0;
        while i < n
            invariant
                line_bounds_ok(self.bounds),
                self.params.wf(),
                self.leds@.len() == self.bounds.size_spec(),
                self.tick < UNIT,
                self.bounds == old(self).bounds,
                b == self.bounds,
                self.params == old(self).params,
                self.color_index == old(self).color_index,
                h == self.bounds.height,
                color == old(self).params@.secondary_colors[old(self).color_index as int % old(
                    self,
                ).params@.secondary_colors.len() as int],
                self.tick == (if advance { 0 } else { t }),
                advance == (t >= UNIT),
                n == self.trails@.len(),
                n == old(self).trails@.len(),
                moved.len() == n,
                forall|j: int| 0 <= j < n ==> #[trigger] moved[j] == line_step(self.bounds, old(self).trails@[j]),
                forall|j: int| 0 <= j < n ==> line_trail_ok(self.bounds, #[trigger] old(self).trails@[j]),
                i <= n,
                faded == dim_colors(old(self).leds@, old(self).params.fade as int),
                self.leds@.len() == faded.len(),
                forall|j: int| i <= j < n ==> #[trigger] self.trails@[j] == old(self).trails@[j],
                forall|j: int|
                    0 <= j < i ==> #[trigger] self.trails@[j] == if advance {
                        moved[j]
                    } else {
                        old(self).trails@[j]
                    },
                reset == (advance && exists|j: int| 0 <= j < i && #[trigger] line_out(b, moved[j])),
                forall|k: int|
                    0 <= k < faded.len() ==> #[trigger] self.leds@[k] == if trail_lights(
                        self.bounds,
                        old(self).trails@,
                        i as int,
                        k,
                    ) {
                        color
                    } else {
                        faded[k]
                    },
            decreases n - i,
        {
            let d = self.trails[i];
            assert(d == old(self).trails@[i as int]);
            assert(line_trail_ok(self.bounds, d));
            let ghost prev = self.leds@;
            if self.bounds.in_(d.head_x, d.head_y) {
                proof {
                    lemma_cell_in_panel(self.bounds, d.head_x as int, d.head_y / 2);
                }
                let index = staggered_index(h, d.head_x as usize, d.head_y as usize);
                self.leds.set(index, color);
            }
            proof {
                assert forall|k: int| 0 <= k < faded.len() implies #[trigger] self.leds@[k] == if trail_lights(
                    self.bounds,
                    old(self).trails@,
                    i + 1,
                    k,
                ) {
                    color
                } else {
                    faded[k]
                } by {
                    if self.bounds.in_x_spec(d.head_x as int) && self.bounds.in_y_spec(d.head_y as int)
                        && trail_index(self.bounds, d) == k {
                        assert(trail_lights(self.bounds, old(self).trails@, i + 1, k));
                    } else {
                        assert(self.leds@[k] == prev[k]);
                        if trail_lights(self.bounds, old(self).trails@, i + 1, k) {
                            let j = choose|j: int|
                                0 <= j < i + 1 && self.bounds.in_x_spec(old(self).trails@[j].head_x as int)
                                    && self.bounds.in_y_spec(old(self).trails@[j].head_y as int)
                                    && #[trigger] trail_index(self.bounds, old(self).trails@[j]) == k;
                            assert(j != i);
                            assert(trail_lights(self.bounds, old(self).trails@, i as int, k));
                        } else {
                            if trail_lights(self.bounds, old(self).trails@, i as int, k) {
                                let j = choose|j: int|
                                    0 <= j < i && self.bounds.in_x_spec(
                                        old(self).trails@[j].head_x as int,
                                    ) && self.bounds.in_y_spec(old(self).trails@[j].head_y as int)
                                        && #[trigger] trail_index(self.bounds, old(self).trails@[j])
                                        == k;
                                assert(trail_lights(self.bounds, old(self).trails@, i + 1, k));
                            }
                        }
                    }
                }
            }
            if advance {
                let m = step(&self.bounds, d);
                assert(m == moved[i as int]);
                proof {
                    lemma_step_moves(self.bounds, d);
                }
                let ghost was = reset;
                if m.head_y > 2 * (h as i32 + LINE_OVERRUN) || m.head_y < -2 * LINE_OVERRUN {
                    reset = true;
                }
                proof {
                    if line_out(b, m) {
                        assert(line_out(b, moved[i as int]));
                        assert(exists|j: int| 0 <= j < i + 1 && #[trigger] line_out(b, moved[j]));
                    } else if was {
                        let j0 = choose|j: int| 0 <= j < i && #[trigger] line_out(b, moved[j]);
                        assert(0 <= j0 < i + 1 && line_out(b, moved[j0]));
                    } else {
                        assert forall|j: int| 0 <= j < i + 1 implies !#[trigger] line_out(b, moved[j]) by {
                            if j < i {
                                if line_out(b, moved[j]) {
                                    assert(exists|j2: int| 0 <= j2 < i && #[trigger] line_out(b, moved[j2]));
                                }
                            }
                        }
                    }
                    assert(reset == (advance && exists|j: int|
                        0 <= j < i + 1 && #[trigger] line_out(b, moved[j])));
                }
                self.trails.set(i, m);
            }
            assert(reset == (advance && exists|j: int|
                0 <= j < i + 1 && #[trigger] line_out(b, moved[j])));
            i += 1;
        }
        assert(advance ==> self.trails@ == moved);
        assert(!advance ==> self.trails@ == old(self).trails@);
        let ghost lit = self.leds@;
        let ghost ticked = self.tick;
        if reset {
            self.color_index = self.color_index.wrapping_add(1);
            let diag = 5 + random_below(&mut self.rng, h - 10) as i32;
            let bidirectional = self.params.bidirectional;
            let mut j: usize = 0;
            while j < n
                invariant
                    line_bounds_ok(self.bounds),
                    self.params.wf(),
                    self.leds@.len() == self.bounds.size_spec(),
                    self.tick < UNIT,
                    self.bounds == old(self).bounds,
                    self.params == old(self).params,
                    bidirectional == self.params.bidirectional,
                    self.leds@ == lit,
                    self.tick == ticked,
                    self.color_index == (if old(self).color_index == usize::MAX {
                        0
                    } else {
                        old(self).color_index + 1
                    }),
                    5 <= diag < self.bounds.height - 5,
                    n == self.trails@.len(),
                    moved.len() == n,
                    forall|k: int|
                        0 <= k < n ==> line_trail_moved(self.bounds, #[trigger] moved[k]),
                    j <= n,
                    forall|k: int| j <= k < n ==> #[trigger] self.trails@[k] == moved[k],
                    forall|k: int|
                        0 <= k < j ==> #[trigger] self.trails@[k] == line_reset(
                            moved[k],
                            diag as int,
                            bidirectional,
                        ),
                decreases n - j,
            {
                let mut m = self.trails[j];
                m.x_dir = -m.x_dir;
                m.y_diag_start = diag;
                if bidirectional {
                    m.y_dir = -m.y_dir;
                } else {
                    m.head_y = if m.head_x % 2 == 0 { 0 } else { 1 };
                }
                self.trails.set(j, m);
                j += 1;
            }
            proof {
                assert(self.trails@ == line_reset_all(moved, diag as int, bidirectional));
                assert forall|k: int| 0 <= k < n implies line_trail_ok(
                    self.bounds,
                    #[trigger] self.trails@[k],
                ) by {
                    lemma_settle(self.bounds, moved[k], diag as int, bidirectional);
                }
            }
        } else {
            proof {
                assert forall|k: int| 0 <= k < n implies line_trail_ok(
                    self.bounds,
                    #[trigger] self.trails@[k],
                ) by {
                    if advance {
                        lemma_settle(self.bounds, moved[k], 5, false);
                    }
                }
            }
        }
    }

    pub fn length(&self) -> (n: usize)
        ensures
            n == self.leds@.len(),
    {
        self.leds.len()
    }

    pub fn get(&self, index: usize) -> (c: Color)
        requires
            index < self.leds@.len(),
        ensures
            c == self.leds@[index as int],
    {
        self.leds[index]
    }

    /// Replaces the parameters; the trails carry on.
    pub fn set_params(&mut self, params: PainterParams)
        requires
            old(self).wf(),
            params.wf(),
        ensures
            final(self).wf(),
            final(self).params == params,
            final(self).bounds == old(self).bounds,
            final(self).leds == old(self).leds,
            final(self).tick == old(self).tick,
            final(self).trails == old(self).trails,
            final(self).color_index == old(self).color_index,
    {
        self.params = params;
    }
}

} // verus!
