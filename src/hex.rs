use vstd::prelude::*;
use rand::rngs::StdRng;
use crate::color::{Color, UNIT};
use crate::geometry::{staggered_index, physical_index_spec, lemma_cell_in_panel, Bounds};
use crate::leds::{new_led_string, fade_all};
use crate::params::{PainterParams, ParamsView, dim_colors};
use crate::random::{seeded_rng, random_below};

verus! {

/// Frames that a finished pattern is held before it fades, when fading
/// after the hold.
pub const HOLD_FRAMES: i32 = 40;

/// Frames of fading that follow a hold.
pub const FADE_AFTER_HOLD: i32 = 60;

/// Frames of fading that follow a finished pattern when not holding first.
pub const FADE_FRAMES: i32 = 40;

/// Random draws, in thousandths, at or below which a proposed hex is dropped.
pub const SPREAD_CUT: usize = 300;

/// One tile of the spreading pattern: a column and a half-row of its center,
/// and its color.
#[derive(Clone, Copy, Debug, PartialEq, Eq, Structural)]
pub struct Hex {
    pub x: i32,
    pub y: i32,
    pub color: Color,
}

/// Panels that the hex painter can draw on: an even number of at least four
/// columns, so that the seed tile sits on a whole row of an even column one
/// in from the right, and at least three rows.
pub open spec fn hex_bounds_ok(b: Bounds) -> bool {
    &&& b.wf()
    &&& b.width % 2 == 0
    &&& b.width >= 4
    &&& b.height >= 3
}

/// A tile whose six neighbors all lie on the panel, centered on a legal
/// staggered position.
pub open spec fn hex_ok(b: Bounds, x: int, y: int) -> bool {
    &&& 1 <= x <= b.width - 2
    &&& 2 <= y < 2 * b.height - 2
    &&& (y - x) % 2 == 0
}

/// The seed tile's position: one column in from the right, on row one.
pub open spec fn hex_seed(b: Bounds) -> (int, int) {
    (b.width - 2, 2)
}

/// Index of the LED at column `x`, half-row `y`.
pub open spec fn cell(b: Bounds, x: int, y: int) -> int {
    physical_index_spec(b.height as int, x, y / 2)
}

/// The buffer with a tile painted: its center, the cells above and below,
/// and the two cells on each side, half a row up and down.
pub open spec fn paint_hex_spec(leds: Seq<Color>, b: Bounds, t: Hex) -> Seq<Color> {
    let x = t.x as int;
    let y = t.y as int;
    let c = t.color;
    leds.update(cell(b, x, y), c).update(cell(b, x, y + 2), c).update(cell(b, x, y - 2), c).update(
        cell(b, x - 1, y - 1),
        c,
    ).update(cell(b, x - 1, y + 1), c).update(cell(b, x + 1, y - 1), c).update(cell(b, x + 1, y + 1), c)
}

/// The buffer with the tiles painted in order.
pub open spec fn paint_hexes(leds: Seq<Color>, b: Bounds, tiles: Seq<Hex>) -> Seq<Color>
    decreases tiles.len(),
{
    if tiles.len() == 0 {
        leds
    } else {
        paint_hex_spec(paint_hexes(leds, b, tiles.drop_last()), b, tiles.last())
    }
}

/// Positions, in order, where a tile at `(x, y)` proposes new tiles. Which
/// directions a tile spreads in depends on its column counted from the right,
/// modulo six: the brick-like adjacency of the hexagonal tiling on a grid.
pub open spec fn hex_candidates(b: Bounds, x: int, y: int) -> Seq<(int, int)> {
    let k = (b.width - 1 - x) % 6;
    let up_left = if b.in_x_spec(x - 2) && b.in_y_spec(y + 7) { seq![(x - 1, y + 5)] } else { seq![] };
    let up_right = if b.in_x_spec(x + 2) && b.in_y_spec(y + 7) { seq![(x + 1, y + 5)] } else { seq![] };
    let left_down = if b.in_x_spec(x - 4) && b.in_y_spec(y + 3) { seq![(x - 3, y + 1)] } else { seq![] };
    let left_up = if b.in_x_spec(x - 4) && b.in_y_spec(y - 3) { seq![(x - 3, y - 1)] } else { seq![] };
    if k == 1 {
        up_left + left_down
    } else if k == 2 {
        up_right + left_down
    } else if k == 4 {
        left_up + up_left
    } else if k == 5 {
        up_right + left_up
    } else {
        seq![]
    }
}

/// Positions proposed by the tiles in order.
pub open spec fn frontier(b: Bounds, tiles: Seq<Hex>) -> Seq<(int, int)>
    decreases tiles.len(),
{
    if tiles.len() == 0 {
        seq![]
    } else {
        frontier(b, tiles.drop_last()) + hex_candidates(
            b,
            tiles.last().x as int,
            tiles.last().y as int,
        )
    }
}

/// Positions of the tiles.
pub open spec fn positions(tiles: Seq<Hex>) -> Seq<(int, int)> {
    Seq::new(tiles.len(), |i: int| (tiles[i].x as int, tiles[i].y as int))
}

/// `t` occurs in `s`.
pub open spec fn among<T>(t: T, s: Seq<T>) -> bool {
    exists|c: int| 0 <= c < s.len() && s[c] == t
}

/// Every tile of the sequence is legal.
pub open spec fn all_hex_ok(b: Bounds, tiles: Seq<Hex>) -> bool {
    forall|i: int| 0 <= i < tiles.len() ==> hex_ok(b, #[trigger] tiles[i].x as int, tiles[i].y as int)
}

proof fn lemma_candidates_ok(b: Bounds, x: int, y: int)
    requires
        hex_bounds_ok(b),
        hex_ok(b, x, y),
    ensures
        forall|i: int|
            0 <= i < hex_candidates(b, x, y).len() ==> hex_ok(
                b,
                #[trigger] hex_candidates(b, x, y)[i].0,
                hex_candidates(b, x, y)[i].1,
            ),
{
}

/// The positions that a tile at `(x, y)` proposes.
fn candidates(b: &Bounds, x: i32, y: i32) -> (r: Vec<(i32, i32)>)
    requires
        hex_bounds_ok(*b),
        hex_ok(*b, x as int, y as int),
    ensures
        r@.len() == hex_candidates(*b, x as int, y as int).len(),
        forall|k: int|
            0 <= k < r@.len() ==> (#[trigger] r@[k].0 as int, r@[k].1 as int) == hex_candidates(
                *b,
                x as int,
                y as int,
            )[k],
{
    let k = (b.width as i32 - 1 - x) % 6;
    let up_left = b.in_(x - 2, y + 7);
    let up_right = b.in_(x + 2, y + 7);
    let left_down = b.in_(x - 4, y + 3);
    let left_up = b.in_(x - 4, y - 3);
    let mut r: Vec<(i32, i32)> = Vec::new();
    if k == 1 {
        if up_left {
            r.push((x - 1, y + 5));
        }
        if left_down {
            r.push((x - 3, y + 1));
        }
    } else if k == 2 {
        if up_right {
            r.push((x + 1, y + 5));
        }
        if left_down {
            r.push((x - 3, y + 1));
        }
    } else if k == 4 {
        if left_up {
            r.push((x - 3, y - 1));
        }
        if up_left {
            r.push((x - 1, y + 5));
        }
    } else if k == 5 {
        if up_right {
            r.push((x + 1, y + 5));
        }
        if left_up {
            r.push((x - 3, y - 1));
        }
    }
    r
}

/// Paints a tile into the buffer.
fn paint_hex(leds: &mut Vec<Color>, b: Bounds, t: Hex)
    requires
        hex_bounds_ok(b),
        old(leds)@.len() == b.size_spec(),
        hex_ok(b, t.x as int, t.y as int),
    ensures
        final(leds)@ == paint_hex_spec(old(leds)@, b, t),
        final(leds)@.len() == old(leds)@.len(),
{
    let h = b.height;
    let x = t.x as usize;
    let y = t.y as usize;
    let c = t.color;
    proof {
        let xi = x as int;
        let yi = y as int;
        lemma_cell_in_panel(b, xi, yi / 2);
        lemma_cell_in_panel(b, xi, (yi + 2) / 2);
        lemma_cell_in_panel(b, xi, (yi - 2) / 2);
        lemma_cell_in_panel(b, xi - 1, (yi - 1) / 2);
        lemma_cell_in_panel(b, xi - 1, (yi + 1) / 2);
        lemma_cell_in_panel(b, xi + 1, (yi - 1) / 2);
        lemma_cell_in_panel(b, xi + 1, (yi + 1) / 2);
    }
    leds.set(staggered_index(h, x, y), c);
    leds.set(staggered_index(h, x, y + 2), c);
    leds.set(staggered_index(h, x, y - 2), c);
    leds.set(staggered_index(h, x - 1, y - 1), c);
    leds.set(staggered_index(h, x - 1, y + 1), c);
    leds.set(staggered_index(h, x + 1, y - 1), c);
    leds.set(staggered_index(h, x + 1, y + 1), c);
}

/// Once a spread has run out and a hold has begun (fading after the hold),
/// every frame of the hold leaves the buffer exactly as it was: `frames`
/// are the painter's states from the start of the hold, one per frame.
pub proof fn lemma_hold_keeps_buffer(frames: Seq<HexPainter>)
    requires
        frames.len() == HOLD_FRAMES + 1,
        frames[0].hold_frames == HOLD_FRAMES,
        frames[0].params.fade_after,
        forall|i: int|
            0 <= i < frames.len() - 1 ==> #[trigger] HexPainter::painted(&frames[i], &frames[i + 1]),
    ensures
        forall|i: int| 0 <= i < frames.len() ==> #[trigger] frames[i].leds@ == frames[0].leds@,
{
    assert forall|i: int| 0 <= i < frames.len() implies #[trigger] frames[i].leds@ == frames[0].leds@ by {
        lemma_hold_prefix(frames, i);
    }
}

/// The first `k` frames of a hold keep the buffer and the parameters and
/// count the hold down.
proof fn lemma_hold_prefix(frames: Seq<HexPainter>, k: int)
    requires
        0 <= k < frames.len(),
        frames.len() == HOLD_FRAMES + 1,
        frames[0].hold_frames == HOLD_FRAMES,
        frames[0].params.fade_after,
        forall|i: int|
            0 <= i < frames.len() - 1 ==> #[trigger] HexPainter::painted(&frames[i], &frames[i + 1]),
    ensures
        frames[k].leds@ == frames[0].leds@,
        frames[k].hold_frames == HOLD_FRAMES - k,
        frames[k].params == frames[0].params,
    decreases k,
{
    if k > 0 {
        lemma_hold_prefix(frames, k - 1);
        assert(HexPainter::painted(&frames[k - 1], &frames[(k - 1) + 1]));
    }
}

/// A tile spreading out from a seed point until the spread runs out, then a
/// hold and a fade before it starts again.
pub struct HexPainter {
    pub bounds: Bounds,
    pub params: PainterParams,
    pub leds: Vec<Color>,
    pub tick: u64,
    pub hexes: Vec<Hex>,
    pub rng: StdRng,
    pub hold_frames: i32,
    pub fade_frames: i32,
}

impl HexPainter {
    pub open spec fn wf(&self) -> bool {
        &&& hex_bounds_ok(self.bounds)
        &&& self.params.wf()
        &&& self.leds@.len() == self.bounds.size_spec()
        &&& self.tick < 2 * UNIT
        &&& all_hex_ok(self.bounds, self.hexes@)
        &&& 0 <= self.hold_frames <= HOLD_FRAMES
        &&& 0 <= self.fade_frames <= FADE_AFTER_HOLD
    }

    /// The clock crosses a step boundary this frame.
    pub open spec fn advances(&self) -> bool {
        self.tick + self.params.speed >= 2 * UNIT
    }

    /// The buffer at the start of a frame: faded, unless fading after the hold.
    pub open spec fn base_leds(&self) -> Seq<Color> {
        if self.params.fade_after {
            self.leds@
        } else {
            dim_colors(self.leds@, self.params.fade as int)
        }
    }

    /// Neither holding nor fading: the tiles are painted this frame.
    pub open spec fn spreading(&self) -> bool {
        self.hold_frames == 0 && self.fade_frames == 0
    }

    /// The tiles painted this frame: the seed tile, with the next palette
    /// color, where there are none.
    pub open spec fn current_tiles(&self) -> Seq<Hex> {
        if self.hexes@.len() == 0 {
            seq![
                Hex {
                    x: (self.bounds.width - 2) as i32,
                    y: 2,
                    color: self.params@.secondary_colors[self.params@.palette_pos()],
                },
            ]
        } else {
            self.hexes@
        }
    }

    /// Positions that the tiles painted this frame propose.
    pub open spec fn proposed(&self) -> Seq<(int, int)> {
        frontier(self.bounds, self.current_tiles())
    }

    /// A dark panel with no tiles yet; the generator is seeded with `seed`.
    pub fn new(bounds: Bounds, params: PainterParams, seed: u64) -> (p: HexPainter)
        requires
            hex_bounds_ok(bounds),
            params.wf(),
        ensures
            p.wf(),
            p.bounds == bounds,
            p.params@ == params@,
            p.tick == 0,
            p.hexes@.len() == 0,
            p.hold_frames == 0,
            p.fade_frames == 0,
            forall|i: int| 0 <= i < p.leds@.len() ==> #[trigger] p.leds@[i] == Color::from_hex_spec(0),
    {
        let leds = new_led_string(bounds.size());
        HexPainter {
            bounds,
            params,
            leds,
            tick: 0,
            hexes: Vec::new(),
            rng: seeded_rng(seed),
            hold_frames: 0,
            fade_frames: 0,
        }
    }

    /// Appends the tiles that `t` proposes, each with the next palette color.
    fn propose(&mut self, t: Hex, next: &mut Vec<Hex>)
        requires
            old(self).wf(),
            hex_ok(old(self).bounds, t.x as int, t.y as int),
            all_hex_ok(old(self).bounds, old(next)@),
        ensures
            all_hex_ok(old(self).bounds, final(next)@),
            final(self).wf(),
            final(self).bounds == old(self).bounds,
            final(self).leds == old(self).leds,
            final(self).tick == old(self).tick,
            final(self).hexes == old(self).hexes,
            final(self).hold_frames == old(self).hold_frames,
            final(self).fade_frames == old(self).fade_frames,
            final(self).params@ == (ParamsView {
                color_index: final(self).params@.color_index,
                ..old(self).params@
            }),
            positions(final(next)@) == positions(old(next)@) + hex_candidates(
                old(self).bounds,
                t.x as int,
                t.y as int,
            ),
    {
        let cands = candidates(&self.bounds, t.x, t.y);
        let ghost cand = hex_candidates(self.bounds, t.x as int, t.y as int);
        let ghost start = next@;
        proof {
            lemma_candidates_ok(self.bounds, t.x as int, t.y as int);
        }
        let m = cands.len();
        let mut j: usize = 0;
        while j < m
            invariant
                self.wf(),
                self.bounds == old(self).bounds,
                self.leds == old(self).leds,
                self.tick == old(self).tick,
                self.hexes == old(self).hexes,
                self.hold_frames == old(self).hold_frames,
                self.fade_frames == old(self).fade_frames,
                self.params@ == (ParamsView {
                    color_index: self.params@.color_index,
                    ..old(self).params@
                }),
                m == cands@.len(),
                m == cand.len(),
                forall|k: int| 0 <= k < m ==> (#[trigger] cands@[k].0 as int, cands@[k].1 as int) == cand[k],
                j <= m,
                positions(next@) == positions(start) + cand.take(j as int),
                all_hex_ok(self.bounds, next@),
                forall|k: int| 0 <= k < m ==> hex_ok(self.bounds, #[trigger] cand[k].0, cand[k].1),
            decreases m - j,
        {
            let (x, y) = cands[j];
            let c = self.params.next_color();
            let ghost before = next@;
            next.push(Hex { x, y, color: c });
            assert(positions(next@) =~= positions(before).push((x as int, y as int)));
            assert((x as int, y as int) == cand[j as int]);
            assert(hex_ok(self.bounds, x as int, y as int));
            assert(forall|k: int| 0 <= k < before.len() ==> next@[k] == before[k]);
            assert(cand.take(j + 1) =~= cand.take(j as int).push(cand[j as int]));
            j += 1;
        }
        assert(cand.take(m as int) =~= cand);
    }

    /// Keeps each proposed tile whose random draw exceeds `SPREAD_CUT`, with
    /// one of them, drawn at random, kept whatever its draw.
    fn thin_out(&mut self, proposed: &Vec<Hex>) -> (kept: Vec<Hex>)
        requires
            proposed@.len() >= 1,
        ensures
            final(self).bounds == old(self).bounds,
            final(self).params == old(self).params,
            final(self).leds == old(self).leds,
            final(self).tick == old(self).tick,
            final(self).hexes == old(self).hexes,
            final(self).hold_frames == old(self).hold_frames,
            final(self).fade_frames == old(self).fade_frames,
            1 <= kept@.len() <= proposed@.len(),
            forall|i: int| 0 <= i < kept@.len() ==> among(#[trigger] kept@[i], proposed@),
    {
        let n = proposed.len();
        let mut pick: Vec<usize> = Vec::new();
        let mut i: usize = 0;
        while i < n
            invariant
                n == proposed@.len(),
                i <= n,
                pick@.len() == i,
                self.bounds == old(self).bounds,
                self.params == old(self).params,
                self.leds == old(self).leds,
                self.tick == old(self).tick,
                self.hexes == old(self).hexes,
                self.hold_frames == old(self).hold_frames,
                self.fade_frames == old(self).fade_frames,
            decreases n - i,
        {
            pick.push(random_below(&mut self.rng, 1000));
            i += 1;
        }
        let forced = random_below(&mut self.rng, n);
        pick.set(forced, 1000);
        let mut kept: Vec<Hex> = Vec::new();
        let mut j: usize = 0;
        while j < n
            invariant
                n == proposed@.len(),
                n == pick@.len(),
                forced < n,
                pick@[forced as int] == 1000,
                j <= n,
                kept@.len() <= j,
                j > forced ==> kept@.len() >= 1,
                forall|a: int| 0 <= a < kept@.len() ==> among(#[trigger] kept@[a], proposed@),
            decreases n - j,
        {
            if pick[j] > SPREAD_CUT {
                let ghost prev = kept@;
                kept.push(proposed[j]);
                proof {
                    assert forall|a: int| 0 <= a < kept@.len() implies among(
                        #[trigger] kept@[a],
                        proposed@,
                    ) by {
                        if a < prev.len() {
                            assert(kept@[a] == prev[a]);
                            assert(among(prev[a], proposed@));
                        } else {
                            assert(kept@[a] == proposed@[j as int]);
                        }
                    }
                }
            }
            j += 1;
        }
        kept
    }

    /// What one frame does: the relation between the painter before and after it.
    pub open spec fn painted(old: &Self, new: &Self) -> bool {
        &&& new.wf()
        &&& new.bounds == old.bounds
        &&& new.params@ == (ParamsView {
            color_index: new.params@.color_index,
            ..old.params@
        })
        &&& new.tick == (old.tick + old.params.speed) % (2 * UNIT as int)
        &&& old.hold_frames > 0 ==> {
            &&& new.hold_frames == old.hold_frames - 1
            &&& new.fade_frames == (if old.hold_frames == 1 {
                FADE_AFTER_HOLD
            } else {
                old.fade_frames
            })
            &&& new.leds@ == old.base_leds()
            &&& new.hexes@ == old.hexes@
            &&& new.params == old.params
        }
        &&& old.hold_frames == 0 && old.fade_frames > 0 ==> {
            &&& new.hold_frames == 0
            &&& new.fade_frames == old.fade_frames - 1
            &&& new.leds@ == dim_colors(old.base_leds(), old.params.fade as int)
            &&& new.hexes@ == old.hexes@
            &&& new.params == old.params
        }
        &&& old.spreading() ==> new.leds@ == paint_hexes(
            old.base_leds(),
            old.bounds,
            old.current_tiles(),
        )
        &&& old.spreading() && !old.advances() ==> {
            &&& new.hexes@ == old.current_tiles()
            &&& new.hold_frames == 0
            &&& new.fade_frames == 0
        }
        &&& old.spreading() && old.advances() && old.proposed().len() == 0 ==> {
            &&& new.hexes@.len() == 0
            &&& new.hold_frames == (if old.params.fade_after {
                HOLD_FRAMES
            } else {
                0
            })
            &&& new.fade_frames == (if old.params.fade_after {
                0
            } else {
                FADE_FRAMES
            })
        }
        &&& old.spreading() && old.advances() && old.proposed().len() > 0 ==> {
            &&& 1 <= new.hexes@.len() <= old.proposed().len()
            &&& new.hold_frames == 0
            &&& new.fade_frames == 0
            &&& forall|i: int|
                0 <= i < new.hexes@.len() ==> among(
                    #[trigger] positions(new.hexes@)[i],
                    old.proposed(),
                )
        }
    }

    /// One frame. A hold counts down with the buffer untouched, a fade counts
    /// down fading the buffer; otherwise the current tiles (the seed tile if
    /// there are none) are painted, and on a step boundary they are replaced
    /// by a random thinning of the tiles they propose, or, where they propose
    /// none, the pattern is done and a hold or a fade begins. Unless fading
    /// after the hold, the buffer also fades every frame.
    pub fn paint(&mut self)
        requires
            old(self).wf(),
        ensures
            Self::painted(old(self), final(self)),
    {
        let t = self.tick + self.params.speed as u64;
        let advance = t >= 2000;
        self.tick = t % 2000;
        if !self.params.fade_after {
            fade_all(&mut self.leds, self.params.fade);
        }
        if self.hold_frames > 0 {
            self.hold_frames = self.hold_frames - 1;
            if self.hold_frames == 0 {
                self.fade_frames = FADE_AFTER_HOLD;
            }
            return;
        }
        if self.fade_frames > 0 {
            self.fade_frames = self.fade_frames - 1;
            fade_all(&mut self.leds, self.params.fade);
            return;
        }
        let ghost base = self.leds@;
        if self.hexes.len() == 0 {
            let c = self.params.next_color();
            self.hexes.push(Hex { x: self.bounds.width as i32 - 2, y: 2, color: c });
            assert(self.hexes@ =~= seq![Hex { x: (old(self).bounds.width - 2) as i32, y: 2, color: c }]);
        }
        let ghost current = self.hexes@;
        let mut proposed: Vec<Hex> = Vec::new();
        let n = self.hexes.len();
        let mut i: usize = 0;
        while i < n
            invariant
                self.wf(),
                self.bounds == old(self).bounds,
                self.params@ == (ParamsView {
                    color_index: self.params@.color_index,
                    ..old(self).params@
                }),
                self.hexes@ == current,
                self.tick == t % 2000,
                self.hold_frames == 0,
                self.fade_frames == 0,
                n == current.len(),
                i <= n,
                self.leds@ == paint_hexes(base, self.bounds, current.take(i as int)),
                advance ==> positions(proposed@) == frontier(self.bounds, current.take(i as int)),
                all_hex_ok(self.bounds, proposed@),
            decreases n - i,
        {
            let t = self.hexes[i];
            assert(current.take(i + 1).drop_last() =~= current.take(i as int));
            assert(current.take(i + 1).last() == t);
            paint_hex(&mut self.leds, self.bounds, t);
            if advance {
                let ghost before = proposed@;
                self.propose(t, &mut proposed);
            }
            i += 1;
        }
        assert(current.take(n as int) =~= current);
        assert(self.leds@ == paint_hexes(base, self.bounds, current));
        assert(advance ==> positions(proposed@) == frontier(self.bounds, current));
        assert(advance ==> proposed@.len() == frontier(self.bounds, current).len());
        if advance {
            self.hexes = Vec::new();
            if proposed.len() == 0 {
                if self.params.fade_after {
                    self.hold_frames = HOLD_FRAMES;
                } else {
                    self.fade_frames = FADE_FRAMES;
                }
                return;
            }
            let kept = self.thin_out(&proposed);
            proof {
                assert forall|a: int| 0 <= a < kept@.len() implies hex_ok(
                    self.bounds,
                    #[trigger] kept@[a].x as int,
                    kept@[a].y as int,
                ) && among(positions(kept@)[a], positions(proposed@)) by {
                    assert(among(kept@[a], proposed@));
                    let c = choose|c: int| 0 <= c < proposed@.len() && proposed@[c] == kept@[a];
                    assert(positions(kept@)[a] == positions(proposed@)[c]);
                }
            }
            self.hexes = kept;
        }
    }

    pub fn length(&self) -> (n: usize)
        ensures
            n == self.leds@.len(),
    {
        self.leds.len()
    }

    pub fn get(&self, index: usize) -> (c: Color)
        requires
            index < self.leds@.len(),
        ensures
            c == self.leds@[index as int],
    {
        self.leds[index]
    }

    /// Replaces the parameters; the tiles and the phase carry on.
    pub fn set_params(&mut self, params: PainterParams)
        requires
            old(self).wf(),
            params.wf(),
        ensures
            final(self).wf(),
            final(self).params == params,
            final(self).bounds == old(self).bounds,
            final(self).leds == old(self).leds,
            final(self).tick == old(self).tick,
            final(self).hexes == old(self).hexes,
            final(self).hold_frames == old(self).hold_frames,
            final(self).fade_frames == old(self).fade_frames,
    {
        self.params = params;
    }
}

} // verus!
