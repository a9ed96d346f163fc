use vstd::prelude::*;

verus! {

/// A single moving particle. Rows are counted in half-rows so that the
/// staggered odd columns are whole numbers too.
#[derive(Clone, Copy, Debug, PartialEq, Eq, Structural)]
pub struct Trail {
    /// Column of the head.
    pub head_x: i32,
    /// Half-row of the head.
    pub head_y: i32,
    /// Columns moved per step.
    pub x_dir: i32,
    /// Half-rows moved per step.
    pub y_dir: i32,
    /// Row at which the trail turns diagonal.
    pub y_diag_start: i32,
}

} // verus!
