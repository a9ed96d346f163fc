use vstd::prelude::*;
use crate::color::Color;
use crate::geometry::Bounds;
use crate::leds::{new_led_string, fade_all, fill_every_other, fill_every_other_spec};
use crate::params::{PainterParams, ParamsView, dim_colors};
use vstd::arithmetic::div_mod::{lemma_div_is_ordered, lemma_div_plus_one};

verus! {

/// Beat number at frame `tick`: `speed` thousandths of 130 beats a minute,
/// at 0.03 s a frame, which is `speed * tick * 65 / 1_000_000` whole beats.
pub open spec fn disco_beat(tick: int, speed: int) -> int {
    speed * tick * 65 / 1_000_000
}

/// Whole panel flashing every other LED on each beat, fading in between.
pub struct Disco {
    pub params: PainterParams,
    pub leds: Vec<Color>,
    pub tick: u64,
    pub last_beat: u128,
}

/// At most one beat passes per frame while the tempo is at most 1000 / 65
/// times the base tempo (200 beats a minute): every beat then fills LEDs of
/// the parity opposite to the previous beat's.
pub proof fn lemma_disco_beats_one_by_one(tick: int, speed: int)
    requires
        tick >= 0,
        0 <= speed,
        speed * 65 <= 1_000_000,
    ensures
        disco_beat(tick, speed) <= disco_beat(tick + 1, speed) <= disco_beat(tick, speed) + 1,
{
    let a = speed * tick * 65;
    assert(speed * (tick + 1) * 65 == a + speed * 65) by (nonlinear_arith)
        requires a == speed * tick * 65;
    assert(0 <= a) by (nonlinear_arith)
        requires tick >= 0, speed >= 0, a == speed * tick * 65;
    lemma_div_is_ordered(a, a + speed * 65, 1_000_000);
    lemma_div_is_ordered(a + speed * 65, a + 1_000_000, 1_000_000);
    lemma_div_plus_one(a, 1_000_000);
}

impl Disco {
    pub open spec fn wf(&self) -> bool {
        &&& self.params.wf()
    }

    /// A dark panel of the bounds' size; red and then blue are added to a
    /// palette of fewer than two colors.
    pub fn new(bounds: Bounds, params: PainterParams) -> (p: Disco)
        requires
            bounds.wf(),
            params.wf(),
        ensures
            p.wf(),
            p.leds@.len() == bounds.size_spec(),
            forall|i: int| 0 <= i < p.leds@.len() ==> #[trigger] p.leds@[i] == Color::from_hex_spec(0),
            p.tick == 0,
            p.last_beat == 0,
            p.params@.secondary_colors == (if params@.secondary_colors.len() >= 2 {
                params@.secondary_colors
            } else {
                params@.secondary_colors.push(Color::from_hex_spec(0x0000FF))
            }),
            p.params@ == (ParamsView { secondary_colors: p.params@.secondary_colors, ..params@ }),
    {
        let mut params = params;
        if params.secondary_colors.len() < 1 {
            params.secondary_colors.push(Color::new(0xFF0000));
        }
        if params.secondary_colors.len() < 2 {
            params.secondary_colors.push(Color::new(0x0000FF));
        }
        Disco { params, leds: new_led_string(bounds.size()), tick: 0, last_beat: 0 }
    }

    /// What one frame does: the relation between the painter before and after it.
    pub open spec fn painted(old: &Self, new: &Self) -> bool {
        &&& new.wf()
        &&& new.tick == (if old.tick < u64::MAX {
            old.tick + 1
        } else {
            old.tick as int
        })
        &&& new.last_beat == disco_beat(old.tick as int, old.params.speed as int)
        &&& ({
            let beat = disco_beat(old.tick as int, old.params.speed as int);
            let faded = dim_colors(old.leds@, old.params.fade as int);
            if beat != old.last_beat {
                &&& new.leds@ == fill_every_other_spec(
                    faded,
                    beat % 2,
                    old.params@.secondary_colors[old.params@.palette_pos()],
                )
                &&& new.params@ == (ParamsView {
                    color_index: old.params@.palette_pos() + 1,
                    ..old.params@
                })
            } else {
                &&& new.leds@ == faded
                &&& new.params == old.params
            }
        })
    }

    /// Fades the panel and, when a new beat has begun, fills every other LED
    /// with the next palette color, alternating the parity beat by beat.
    pub fn paint(&mut self)
        requires
            old(self).wf(),
        ensures
            Self::painted(old(self), final(self)),
    {
        proof {
            assert(self.params.speed as int * self.tick as int * 65 <= 0xffff_ffff * 0xffff_ffff_ffff_ffff
                * 65) by (nonlinear_arith)
                requires self.params.speed <= 0xffff_ffff, self.tick <= 0xffff_ffff_ffff_ffff;
        }
        let beat: u128 = (self.params.speed as u128) * (self.tick as u128) * 65 / 1_000_000;
        fade_all(&mut self.leds, self.params.fade);
        if self.last_beat != beat {
            let color = self.params.next_color();
            fill_every_other((beat % 2) as usize, color, &mut self.leds);
        }
        self.last_beat = beat;
        if self.tick < u64::MAX {
            self.tick = self.tick + 1;
        }
    }

    pub fn length(&self) -> (n: usize)
        ensures
            n == self.leds@.len(),
    {
        self.leds.len()
    }

    pub fn get(&self, index: usize) -> (c: Color)
        requires
            index < self.leds@.len(),
        ensures
            c == self.leds@[index as int],
    {
        self.leds[index]
    }

    /// Replaces the parameters; the beat clock carries on.
    pub fn set_params(&mut self, params: PainterParams)
        requires
            old(self).wf(),
            params.wf(),
        ensures
            final(self).wf(),
            final(self).params == params,
            final(self).leds == old(self).leds,
            final(self).tick == old(self).tick,
            final(self).last_beat == old(self).last_beat,
    {
        self.params = params;
    }
}

} // verus!
