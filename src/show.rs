use vstd::prelude::*;
use crate::color::Color;
use crate::geometry::Bounds;
use crate::hex::hex_bounds_ok;
use crate::line::line_bounds_ok;
use crate::painter::{Painter, PainterKind, kind_of_spec, make_painter};
use crate::params::{PainterParams, ParamsView};

verus! {

/// Something that takes one step per tick of the render loop while it is
/// ready to.
pub trait Runnable {
    spec fn ready(&self) -> bool;

    fn run(&mut self)
        requires
            old(self).ready(),
        ensures
            final(self).ready(),
    ;
}

/// Panels on which every pattern can be drawn.
pub open spec fn areas_ok(areas: Seq<Bounds>) -> bool {
    forall|i: int|
        0 <= i < areas.len() ==> hex_bounds_ok(#[trigger] areas[i]) && line_bounds_ok(areas[i])
}

/// Number of LEDs of all the panels together.
pub open spec fn total_size(areas: Seq<Bounds>) -> nat
    decreases areas.len(),
{
    if areas.len() == 0 {
        0
    } else {
        total_size(areas.drop_last()) + areas.last().size_spec()
    }
}

/// The buffers of the painters, one after the other: the frame that goes to
/// the pixel sink.
pub open spec fn frame_of(painters: Seq<Painter>) -> Seq<Color>
    decreases painters.len(),
{
    if painters.len() == 0 {
        seq![]
    } else {
        frame_of(painters.drop_last()) + painters.last().leds()
    }
}

/// Fresh painters of one pattern, one per panel, in order.
pub open spec fn fresh_painters(painters: Seq<Painter>, areas: Seq<Bounds>, kind: PainterKind) -> bool {
    &&& painters.len() == areas.len()
    &&& forall|i: int|
        0 <= i < painters.len() ==> {
            &&& (#[trigger] painters[i]).wf()
            &&& painters[i].kind() == kind
            &&& painters[i].leds().len() == areas[i].size_spec()
            &&& forall|k: int|
                0 <= k < painters[i].leds().len() ==> #[trigger] painters[i].leds()[k]
                    == Color::from_hex_spec(0)
        }
}

/// The engine of the render loop: the panels of the full rig and of the belt
/// alone, the parameters in force, and a painter per active panel.
pub struct Show {
    pub all_areas: Vec<Bounds>,
    pub belt: Vec<Bounds>,
    pub params: PainterParams,
    pub painters: Vec<Painter>,
    pub seed: u64,
}

/// The panels in use under the given parameters.
pub open spec fn active_areas(all_areas: Seq<Bounds>, belt: Seq<Bounds>, params: ParamsView) -> Seq<
    Bounds,
> {
    if params.belt_only {
        belt
    } else {
        all_areas
    }
}

proof fn lemma_total_prefix(areas: Seq<Bounds>, i: int)
    requires
        0 <= i <= areas.len(),
    ensures
        total_size(areas.take(i)) <= total_size(areas),
    decreases areas.len() - i,
{
    if i < areas.len() {
        lemma_total_prefix(areas, i + 1);
        assert(areas.take(i + 1).drop_last() =~= areas.take(i));
    } else {
        assert(areas.take(i) =~= areas);
    }
}

/// A painter per panel, each with a buffer of its panel's size, give a frame
/// of the panels' total size.
proof fn lemma_frame_size(painters: Seq<Painter>, areas: Seq<Bounds>)
    requires
        painters.len() == areas.len(),
        forall|i: int|
            0 <= i < painters.len() ==> (#[trigger] painters[i]).leds().len() == areas[i].size_spec(),
    ensures
        frame_of(painters).len() == total_size(areas),
    decreases painters.len(),
{
    if painters.len() > 0 {
        let p = painters.drop_last();
        let a = areas.drop_last();
        assert forall|i: int| 0 <= i < p.len() implies (#[trigger] p[i]).leds().len() == a[i].size_spec() by {
            assert(p[i] == painters[i]);
        }
        lemma_frame_size(p, a);
        assert(painters.last() == painters[painters.len() - 1]);
    }
}

/// Builds a fresh painter for each panel.
fn build(areas: &Vec<Bounds>, params: &PainterParams, seed: u64) -> (painters: Vec<Painter>)
    requires
        areas_ok(areas@),
        params.wf(),
    ensures
        fresh_painters(painters@, areas@, kind_of_spec(params@.painter)),
        forall|i: int|
            0 <= i < painters@.len() && kind_of_spec(params@.painter) != PainterKind::Disco
                ==> (#[trigger] painters@[i]).params_view() == params@,
{
    let mut painters: Vec<Painter> = Vec::new();
    let mut i: usize = 0;
    while i < areas.len()
        invariant
            areas_ok(areas@),
            params.wf(),
            i <= areas@.len(),
            fresh_painters(painters@, areas@.take(i as int), kind_of_spec(params@.painter)),
            forall|j: int|
                0 <= j < painters@.len() && kind_of_spec(params@.painter) != PainterKind::Disco
                    ==> (#[trigger] painters@[j]).params_view() == params@,
        decreases areas@.len() - i,
    {
        let b = areas[i];
        assert(hex_bounds_ok(areas@[i as int]) && line_bounds_ok(areas@[i as int]));
        let p = make_painter(b, params.duplicate(), seed.wrapping_add(i as u64));
        painters.push(p);
        assert(areas@.take(i + 1)[i as int] == b);
        assert forall|j: int| 0 <= j < i implies areas@.take(i + 1)[j] == #[trigger] areas@.take(i as int)[j] by {}
        i += 1;
    }
    assert(areas@.take(areas@.len() as int) =~= areas@);
    painters
}

/// Number of LEDs of the panels together.
fn count_leds(areas: &Vec<Bounds>) -> (n: usize)
    requires
        areas_ok(areas@),
        total_size(areas@) <= usize::MAX,
    ensures
        n == total_size(areas@),
{
    let mut n: usize = 0;
    let mut i: usize = 0;
    while i < areas.len()
        invariant
            areas_ok(areas@),
            total_size(areas@) <= usize::MAX,
            i <= areas@.len(),
            n == total_size(areas@.take(i as int)),
        decreases areas@.len() - i,
    {
        proof {
            lemma_total_prefix(areas@, i + 1);
            assert(areas@.take(i + 1).drop_last() =~= areas@.take(i as int));
        }
        assert(hex_bounds_ok(areas@[i as int]));
        n = n + areas[i].size();
        i += 1;
    }
    assert(areas@.take(areas@.len() as int) =~= areas@);
    n
}

impl Show {
    pub open spec fn active(&self) -> Seq<Bounds> {
        active_areas(self.all_areas@, self.belt@, self.params@)
    }

    pub open spec fn wf(&self) -> bool {
        &&& areas_ok(self.all_areas@)
        &&& areas_ok(self.belt@)
        &&& total_size(self.all_areas@) <= usize::MAX
        &&& total_size(self.belt@) <= usize::MAX
        &&& self.params.wf()
        &&& self.painters@.len() == self.active().len()
        &&& forall|i: int|
            0 <= i < self.painters@.len() ==> {
                &&& (#[trigger] self.painters@[i]).wf()
                &&& self.painters@[i].kind() == kind_of_spec(self.params@.painter)
                &&& self.painters@[i].leds().len() == self.active()[i].size_spec()
            }
    }

    /// A show on the panels that the parameters select, with fresh painters.
    pub fn new(all_areas: Vec<Bounds>, belt: Vec<Bounds>, params: PainterParams, seed: u64) -> (s: Show)
        requires
            areas_ok(all_areas@),
            areas_ok(belt@),
            total_size(all_areas@) <= usize::MAX,
            total_size(belt@) <= usize::MAX,
            params.wf(),
        ensures
            s.wf(),
            s.params@ == params@,
            fresh_painters(s.painters@, s.active(), kind_of_spec(params@.painter)),
    {
        let painters = if params.belt_only {
            build(&belt, &params, seed)
        } else {
            build(&all_areas, &params, seed)
        };
        let n = if params.belt_only { belt.len() } else { all_areas.len() };
        Show { all_areas, belt, params, painters, seed: seed.wrapping_add(n as u64) }
    }

    /// Advances every painter by one frame: the work of one tick.
    pub fn tick(&mut self)
        requires
            old(self).wf(),
        ensures
            final(self).wf(),
            final(self).params == old(self).params,
            final(self).all_areas == old(self).all_areas,
            final(self).belt == old(self).belt,
            final(self).painters@.len() == old(self).painters@.len(),
            forall|i: int|
                0 <= i < final(self).painters@.len() ==> Painter::painted(
                    &old(self).painters@[i],
                    &(#[trigger] final(self).painters@[i]),
                ),
    {
        let n = self.painters.len();
        let mut i: usize = 0;
        while i < n
            invariant
                n == self.painters@.len(),
                n == old(self).painters@.len(),
                i <= n,
                self.params == old(self).params,
                self.all_areas == old(self).all_areas,
                self.belt == old(self).belt,
                self.painters@.len() == self.active().len(),
                forall|j: int|
                    0 <= j < n ==> {
                        &&& (#[trigger] self.painters@[j]).wf()
                        &&& self.painters@[j].kind() == old(self).painters@[j].kind()
                        &&& self.painters@[j].leds().len() == old(self).painters@[j].leds().len()
                    },
                forall|j: int|
                    0 <= j < i ==> Painter::painted(
                        &old(self).painters@[j],
                        &(#[trigger] self.painters@[j]),
                    ),
                forall|j: int| i <= j < n ==> #[trigger] self.painters@[j] == old(self).painters@[j],
                old(self).wf(),
            decreases n - i,
        {
            self.painters[i].paint();
            i += 1;
        }
    }

    /// Number of LEDs of the panels in use.
    pub fn active_count(&self) -> (n: usize)
        requires
            self.wf(),
        ensures
            n == total_size(self.active()),
    {
        if self.params.belt_only {
            count_leds(&self.belt)
        } else {
            count_leds(&self.all_areas)
        }
    }

    /// The buffers of all painters, one after the other.
    pub fn frame(&self) -> (f: Vec<Color>)
        requires
            self.wf(),
        ensures
            f@ == frame_of(self.painters@),
            f@.len() == total_size(self.active()),
    {
        proof {
            lemma_frame_size(self.painters@, self.active());
        }
        let mut f: Vec<Color> = Vec::new();
        let mut i: usize = 0;
        while i < self.painters.len()
            invariant
                self.wf(),
                i <= self.painters@.len(),
                f@ == frame_of(self.painters@.take(i as int)),
            decreases self.painters@.len() - i,
        {
            let p = &self.painters[i];
            let n = p.length();
            let ghost start = f@;
            let mut k: usize = 0;
            while k < n
                invariant
                    n == p.leds().len(),
                    k <= n,
                    f@ == start + p.leds().take(k as int),
                decreases n - k,
            {
                f.push(p.get(k));
                assert(p.leds().take(k + 1) =~= p.leds().take(k as int).push(p.leds()[k as int]));
                k += 1;
            }
            assert(p.leds().take(n as int) =~= p.leds());
            assert(self.painters@.take(i + 1).drop_last() =~= self.painters@.take(i as int));
            i += 1;
        }
        assert(self.painters@.take(self.painters@.len() as int) =~= self.painters@);
        f
    }

    /// Takes a new parameter set. When it names another pattern or switches
    /// between the full rig and the belt, the painters are replaced by fresh
    /// ones on the panels now in use; otherwise every painter takes the new
    /// parameters and carries on. Returns the new LED count where the panels
    /// in use changed.
    pub fn apply(&mut self, new_params: PainterParams) -> (count: Option<usize>)
        requires
            old(self).wf(),
            new_params.wf(),
        ensures
            final(self).wf(),
            final(self).params@ == new_params@,
            final(self).all_areas == old(self).all_areas,
            final(self).belt == old(self).belt,
            ({
                let changed = new_params.belt_only != old(self).params.belt_only
                    || new_params@.painter != old(self).params@.painter;
                &&& changed ==> fresh_painters(
                    final(self).painters@,
                    final(self).active(),
                    kind_of_spec(new_params@.painter),
                )
                &&& !changed ==> final(self).painters@.len() == old(self).painters@.len() && forall|i: int|
                    0 <= i < final(self).painters@.len() ==> (#[trigger] final(self).painters@[i]).leds()
                        == old(self).painters@[i].leds() && final(self).painters@[i].kind() == old(
                        self,
                    ).painters@[i].kind() && final(self).painters@[i].params_view() == new_params@
            }),
            count == (if new_params.belt_only != old(self).params.belt_only {
                Some(total_size(final(self).active()) as usize)
            } else {
                None::<usize>
            }),
    {
        let zone_changed = new_params.belt_only != self.params.belt_only;
        if zone_changed || new_params.painter != self.params.painter {
            let painters = if new_params.belt_only {
                build(&self.belt, &new_params, self.seed)
            } else {
                build(&self.all_areas, &new_params, self.seed)
            };
            let n = painters.len();
            self.painters = painters;
            self.seed = self.seed.wrapping_add(n as u64);
            self.params = new_params;
            if zone_changed {
                Some(self.active_count())
            } else {
                None
            }
        } else {
            let n = self.painters.len();
            let mut i: usize = 0;
            while i < n
                invariant
                    n == self.painters@.len(),
                    n == old(self).painters@.len(),
                    i <= n,
                    new_params.wf(),
                    self.all_areas == old(self).all_areas,
                    self.belt == old(self).belt,
                    self.params == old(self).params,
                    forall|j: int|
                        0 <= j < n ==> (#[trigger] self.painters@[j]).wf() && self.painters@[j].leds()
                            == old(self).painters@[j].leds() && self.painters@[j].kind() == old(
                            self,
                        ).painters@[j].kind(),
                    forall|j: int| 0 <= j < i ==> (#[trigger] self.painters@[j]).params_view() == new_params@,
                decreases n - i,
            {
                self.painters[i].set_params(new_params.duplicate());
                i += 1;
            }
            self.params = new_params;
            None
        }
    }
}

impl Runnable for Show {
    open spec fn ready(&self) -> bool {
        self.wf()
    }

    /// One tick: every painter advances by a frame.
    fn run(&mut self) {
        self.tick();
    }
}

} // verus!
