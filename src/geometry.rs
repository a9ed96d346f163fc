use vstd::prelude::*;
use crate::color::UNIT;
use vstd::arithmetic::div_mod::{lemma_fundamental_div_mod_converse, lemma_fundamental_div_mod};
use vstd::arithmetic::mul::{lemma_mul_inequality, lemma_mul_is_distributive_add_other_way};

verus! {

/// Largest number of columns, and of LEDs per column, of a panel.
pub const MAX_SIDE: usize = 4096;

/// Wiring-order index of column `x`, row `y` of a serpentine panel whose
/// columns hold `height` LEDs: even columns run top to bottom, odd columns
/// bottom to top.
pub open spec fn physical_index_spec(height: int, x: int, y: int) -> int {
    if x % 2 == 0 {
        x * height + y
    } else {
        x * height + (height - y - 1)
    }
}

/// Wiring-order index of the LED at column `x`, row `y`.
pub fn physical_index(height: usize, x: usize, y: usize) -> (r: usize)
    requires
        y < height,
        (x + 1) * height <= usize::MAX,
    ensures
        r == physical_index_spec(height as int, x as int, y as int),
        x * height <= r < (x + 1) * height,
{
    proof {
        lemma_mul_is_distributive_add_other_way(height as int, x as int, 1);
    }
    let offset = x * height;
    if x % 2 == 0 {
        offset + y
    } else {
        offset + height - y - 1
    }
}

/// Wiring-order index of the LED at column `x` and half-row `y_half` of a
/// staggered panel, where odd columns sit half a pitch lower than even ones.
/// A position is legal only where the parity of the half-row matches the
/// parity of the column: whole rows on even columns, `n + 1/2` on odd ones.
pub fn staggered_index(height: usize, x: usize, y_half: usize) -> (r: usize)
    requires
        y_half % 2 == x % 2,
        y_half / 2 < height,
        (x + 1) * height <= usize::MAX,
    ensures
        r == physical_index_spec(height as int, x as int, y_half as int / 2),
        x * height <= r < (x + 1) * height,
{
    physical_index(height, x, y_half / 2)
}

/// Some cell of a `width` by `height` panel has index `i`.
pub open spec fn is_cell_index(width: int, height: int, i: int) -> bool {
    exists|x: int, y: int|
        0 <= x < width && 0 <= y < height && #[trigger] physical_index_spec(height, x, y) == i
}

/// The serpentine wiring puts every cell of a `width` by `height` panel at a
/// distinct index, and every index below `width * height` at some cell.
pub proof fn lemma_physical_index_bijection(width: int, height: int)
    requires
        width >= 2,
        height >= 2,
    ensures
        forall|x: int, y: int|
            0 <= x < width && 0 <= y < height ==> 0 <= #[trigger] physical_index_spec(height, x, y)
                < width * height,
        forall|x1: int, y1: int, x2: int, y2: int|
            0 <= x1 < width && 0 <= y1 < height && 0 <= x2 < width && 0 <= y2 < height
                && #[trigger] physical_index_spec(height, x1, y1) == #[trigger] physical_index_spec(
                height,
                x2,
                y2,
            ) ==> x1 == x2 && y1 == y2,
        forall|i: int| 0 <= i < width * height ==> #[trigger] is_cell_index(width, height, i),
{
    assert forall|x: int, y: int|
        0 <= x < width && 0 <= y < height implies 0 <= #[trigger] physical_index_spec(height, x, y)
            < width * height by {
        lemma_cell_decomposes(height, x, y);
        lemma_mul_inequality(x + 1, width, height);
        lemma_mul_is_distributive_add_other_way(height, x, 1);
    }
    assert forall|x1: int, y1: int, x2: int, y2: int|
        0 <= x1 < width && 0 <= y1 < height && 0 <= x2 < width && 0 <= y2 < height
            && #[trigger] physical_index_spec(height, x1, y1) == #[trigger] physical_index_spec(
            height,
            x2,
            y2,
        ) implies x1 == x2 && y1 == y2 by {
        lemma_cell_decomposes(height, x1, y1);
        lemma_cell_decomposes(height, x2, y2);
    }
    assert forall|i: int| 0 <= i < width * height implies #[trigger] is_cell_index(
        width,
        height,
        i,
    ) by {
        lemma_fundamental_div_mod(i, height);
        let x = i / height;
        let r = i % height;
        assert(0 <= x < width) by {
            if x >= width {
                lemma_mul_inequality(width, x, height);
                assert(height * x == x * height) by (nonlinear_arith);
            }
        }
        let y = if x % 2 == 0 {
            r
        } else {
            height - 1 - r
        };
        assert(physical_index_spec(height, x, y) == i);
    }
}

/// A cell's index is its column times `height` plus its position within the
/// column, so the column and that position can be read back from the index.
pub proof fn lemma_cell_decomposes(height: int, x: int, y: int)
    requires
        height > 0,
        x >= 0,
        0 <= y < height,
    ensures
        physical_index_spec(height, x, y) / height == x,
        physical_index_spec(height, x, y) % height == (if x % 2 == 0 {
            y
        } else {
            height - y - 1
        }),
{
    let r = if x % 2 == 0 {
        y
    } else {
        height - y - 1
    };
    assert(physical_index_spec(height, x, y) == x * height + r);
    lemma_fundamental_div_mod_converse(physical_index_spec(height, x, y), height, x, r);
}

/// Cells of a panel have distinct indices, below the panel's size.
pub proof fn lemma_cell_in_panel(b: Bounds, x: int, y: int)
    requires
        b.wf(),
        0 <= x < b.width,
        0 <= y < b.height,
    ensures
        (x + 1) * b.height <= b.width * b.height <= MAX_SIDE * MAX_SIDE,
        x * b.height <= physical_index_spec(b.height as int, x, y) < (x + 1) * b.height,
        0 <= physical_index_spec(b.height as int, x, y) < b.width * b.height,
        forall|x2: int, y2: int|
            0 <= x2 < b.width && 0 <= y2 < b.height && (x2 != x || y2 != y)
                ==> #[trigger] physical_index_spec(b.height as int, x2, y2)
                != physical_index_spec(b.height as int, x, y),
{
    let h = b.height as int;
    let w = b.width as int;
    lemma_mul_inequality(x + 1, w, h);
    lemma_mul_inequality(w, MAX_SIDE as int, h);
    lemma_mul_inequality(h, MAX_SIDE as int, MAX_SIDE as int);
    assert(h * MAX_SIDE == MAX_SIDE * h) by (nonlinear_arith);
    assert(w * h == h * w) by (nonlinear_arith);
    lemma_mul_is_distributive_add_other_way(h, x, 1);
    lemma_cell_decomposes(h, x, y);
    assert(x * h >= 0) by (nonlinear_arith) requires x >= 0, h >= 0;
    assert forall|x2: int, y2: int|
        0 <= x2 < b.width && 0 <= y2 < b.height && (x2 != x || y2 != y)
            implies #[trigger] physical_index_spec(h, x2, y2) != physical_index_spec(h, x, y) by {
        lemma_cell_decomposes(h, x2, y2);
    }
}

/// A logical panel: `width` serpentine columns of `height` LEDs each.
#[derive(Clone, Copy, Debug, PartialEq, Eq, Structural)]
pub struct Bounds {
    pub height: usize,
    pub width: usize,
}

impl Bounds {
    /// Both sides are between one and `MAX_SIDE` LEDs.
    pub open spec fn wf(self) -> bool {
        1 <= self.width <= MAX_SIDE && 1 <= self.height <= MAX_SIDE
    }

    /// Number of LEDs of the panel.
    pub open spec fn size_spec(self) -> nat {
        (self.width * self.height) as nat
    }

    /// Column `x` lies on the panel.
    pub open spec fn in_x_spec(self, x: int) -> bool {
        0 <= x < self.width
    }

    /// Half-row `y_half` (row `y_half / 2`) lies on the panel: from the top
    /// row down to half a row above the bottom edge.
    pub open spec fn in_y_spec(self, y_half: int) -> bool {
        0 <= y_half <= 2 * self.height - 1
    }

    pub fn size(&self) -> (n: usize)
        requires
            self.wf(),
        ensures
            n == self.size_spec(),
    {
        proof {
            lemma_mul_inequality(self.width as int, MAX_SIDE as int, self.height as int);
            lemma_mul_inequality(self.height as int, MAX_SIDE as int, MAX_SIDE as int);
            assert(self.height * MAX_SIDE == MAX_SIDE * self.height) by (nonlinear_arith);
        }
        self.height * self.width
    }

    pub fn in_x(&self, x: i32) -> (r: bool)
        ensures
            r == self.in_x_spec(x as int),
    {
        x >= 0 && (x as usize) < self.width
    }

    pub fn in_y(&self, y_half: i32) -> (r: bool)
        ensures
            r == self.in_y_spec(y_half as int),
    {
        y_half >= 0 && (y_half as usize) / 2 < self.height
    }

    pub fn in_(&self, x: i32, y_half: i32) -> (r: bool)
        ensures
            r == (self.in_x_spec(x as int) && self.in_y_spec(y_half as int)),
    {
        self.in_x(x) && self.in_y(y_half)
    }

    /// Column `x` and half-row `y_half` lie strictly inside the rectangle
    /// that has the panel's center and `scale` thousandths of its size.
    pub open spec fn in_scale_spec(self, x: int, y_half: int, scale: int) -> bool {
        &&& 2 * (UNIT as int) * x > self.width * ((UNIT as int) - scale)
        &&& 2 * (UNIT as int) * x < self.width * ((UNIT as int) + scale)
        &&& (UNIT as int) * y_half > self.height * ((UNIT as int) - scale)
        &&& (UNIT as int) * y_half < self.height * ((UNIT as int) + scale)
    }

    pub fn in_scale(&self, x: i32, y_half: i32, scale: u32) -> (r: bool)
        requires
            self.wf(),
            scale <= 100 * UNIT,
        ensures
            r == self.in_scale_spec(x as int, y_half as int, scale as int),
    {
        let w = self.width as i64;
        let h = self.height as i64;
        let s = scale as i64;
        let u: i64 = 1000;
        proof {
            assert(w * (u - s) <= 4096 * 100000 && w * (u - s) >= -4096 * 100000 && w * (u + s)
                <= 4096 * 101000) by (nonlinear_arith)
                requires 1 <= w <= 4096, 0 <= s <= 100000, u == 1000;
            assert(h * (u - s) <= 4096 * 100000 && h * (u - s) >= -4096 * 100000 && h * (u + s)
                <= 4096 * 101000) by (nonlinear_arith)
                requires 1 <= h <= 4096, 0 <= s <= 100000, u == 1000;
        }
        let x2 = 2000 * (x as i64);
        let y2 = 1000 * (y_half as i64);
        x2 > w * (u - s) && x2 < w * (u + s) && y2 > h * (u - s) && y2 < h * (u + s)
    }

    /// Row `y` counted from the bottom instead of the top.
    pub fn flip_u(&self, y: usize) -> (r: usize)
        requires
            y < self.height,
        ensures
            r == self.height - y - 1,
    {
        self.height - y - 1
    }

    /// Column `x` counted from the right instead of the left.
    pub fn flip_x(&self, x: i32) -> (r: i32)
        requires
            self.wf(),
            0 <= x < self.width,
        ensures
            r == self.width - x - 1,
    {
        self.width as i32 - x - 1
    }
}

} // verus!
