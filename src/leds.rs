use vstd::prelude::*;
use crate::color::{Color, UNIT};
use crate::params::dim_colors;

verus! {

/// A buffer of `size` dark LEDs.
pub fn new_led_string(size: usize) -> (leds: Vec<Color>)
    ensures
        leds@.len() == size,
        forall|i: int| 0 <= i < size ==> #[trigger] leds@[i] == Color::from_hex_spec(0),
{
    let black = Color::new(0);
    let mut leds: Vec<Color> = Vec::with_capacity(size);
    let mut i: usize = 0;
    while i < size
        invariant
            i <= size,
            leds@.len() == i,
            black == Color::from_hex_spec(0),
            forall|j: int| 0 <= j < i ==> #[trigger] leds@[j] == black,
        decreases size - i,
    {
        leds.push(black);
        i += 1;
    }
    leds
}

/// Scales every LED of the buffer by `fade` thousandths.
pub fn fade_all(leds: &mut Vec<Color>, fade: u32)
    requires
        fade <= UNIT,
    ensures
        final(leds)@ == dim_colors(old(leds)@, fade as int),
{
    let n = leds.len();
    let mut i: usize = 0;
    while i < n
        invariant
            n == leds@.len(),
            n == old(leds)@.len(),
            fade <= UNIT,
            i <= n,
            forall|j: int| 0 <= j < i ==> #[trigger] leds@[j] == old(leds)@[j].scaled_spec(fade as int),
            forall|j: int| i <= j < n ==> #[trigger] leds@[j] == old(leds)@[j],
        decreases n - i,
    {
        let c = leds[i].scaled(fade);
        leds.set(i, c);
        i += 1;
    }
    assert(leds@ =~= dim_colors(old(leds)@, fade as int));
}

/// The buffer with `color` on every LED whose index has the given parity.
pub open spec fn fill_every_other_spec(leds: Seq<Color>, parity: int, color: Color) -> Seq<Color> {
    Seq::new(leds.len(), |i: int| if i % 2 == parity { color } else { leds[i] })
}

/// Sets every LED whose index has parity `parity` to `color`.
pub fn fill_every_other(parity: usize, color: Color, leds: &mut Vec<Color>)
    ensures
        final(leds)@ == fill_every_other_spec(old(leds)@, parity as int, color),
{
    let n = leds.len();
    let mut i: usize = 0;
    while i < n
        invariant
            n == leds@.len(),
            n == old(leds)@.len(),
            i <= n,
            forall|j: int|
                0 <= j < i ==> #[trigger] leds@[j] == (if j % 2 == parity as int {
                    color
                } else {
                    old(leds)@[j]
                }),
            forall|j: int| i <= j < n ==> #[trigger] leds@[j] == old(leds)@[j],
        decreases n - i,
    {
        if i % 2 == parity {
            leds.set(i, color);
        }
        i += 1;
    }
    assert(leds@ =~= fill_every_other_spec(old(leds)@, parity as int, color));
}

/// Whether a clock at `tick` crosses a multiple of `unit` when `speed` is
/// added to it: the discrete step boundary of the animations.
pub fn should_advance(tick: u64, speed: u64, unit: u64) -> (r: bool)
    requires
        unit > 0,
        tick + speed <= u64::MAX,
    ensures
        r == ((tick as int + speed as int) / (unit as int) != (tick as int) / (unit as int)),
{
    (tick + speed) / unit != tick / unit
}

} // verus!
