use vstd::prelude::*;
use crate::arith::{fits_i64, lemma_product_bound, wide_product};
use crate::error::LayoutError;
use crate::layout::{Layout, Tables};

verus! {

/// The scaled centre of grid line `index` at the vertical coordinate `y`.
///
/// The line runs straight from `low` at `y = 0` to `high` at `y = height`, so
/// its centre is `low + (high - low) * y / height`; this is that position
/// multiplied by `height`. Outside `[0, height]` the line is continued.
pub open spec fn spec_y_joint(t: Tables, index: int, y: int) -> int {
    t.low[index] * t.height + (t.high[index] - t.low[index]) * y
}

/// The vertical coordinate of a needle that lies at `y` in the coordinates of
/// the drawing, and the other way round: needles are measured upwards from
/// the bottom edge, the drawing downwards from the top edge.
pub open spec fn drawing_y(t: Tables, y: int) -> int {
    t.height - y
}

/// At `y = 0` a grid line stands exactly at its `low` anchor, and at
/// `y = height` exactly at its `high` anchor.
pub proof fn lemma_y_joint_at_ends(t: Tables, index: int)
    ensures
        spec_y_joint(t, index, 0) == t.low[index] * t.height,
        spec_y_joint(t, index, t.height) == t.high[index] * t.height,
{
    let low = t.low[index];
    let high = t.high[index];
    let h = t.height;
    assert(low * h + (high - low) * h == high * h) by (nonlinear_arith);
}

/// In the coordinates of the drawing, which run downwards from its top edge,
/// a grid line meets the top edge, at `0`, exactly at its `high` anchor, and
/// the bottom edge, at `height`, exactly at its `low` anchor.
pub proof fn lemma_y_joint_at_edges_of_drawing(t: Tables, index: int)
    ensures
        spec_y_joint(t, index, drawing_y(t, 0)) == t.high[index] * t.height,
        spec_y_joint(t, index, drawing_y(t, t.height)) == t.low[index] * t.height,
{
    lemma_y_joint_at_ends(t, index);
}

/// A grid line whose two anchors agree is vertical: at every `y`, and so at
/// `0` and at `height`, it stands at `high`, which is `low`.
pub proof fn lemma_y_joint_without_skew(t: Tables, index: int, y: int)
    requires
        t.low[index] == t.high[index],
    ensures
        spec_y_joint(t, index, y) == t.high[index] * t.height,
        spec_y_joint(t, index, y) == t.low[index] * t.height,
        spec_y_joint(t, index, 0) == t.high[index] * t.height,
        spec_y_joint(t, index, t.height) == t.low[index] * t.height,
{
}

/// Between the ends of the axis a grid line stays between its anchors.
pub proof fn lemma_y_joint_between_anchors(t: Tables, index: int, y: int)
    requires
        t.height > 0,
        0 <= y <= t.height,
    ensures
        t.low[index] <= t.high[index] ==> t.low[index] * t.height <= spec_y_joint(t, index, y)
            <= t.high[index] * t.height,
        t.high[index] <= t.low[index] ==> t.high[index] * t.height <= spec_y_joint(t, index, y)
            <= t.low[index] * t.height,
{
    let low = t.low[index];
    let high = t.high[index];
    let h = t.height;
    assert(low <= high ==> low * h <= low * h + (high - low) * y <= high * h) by (nonlinear_arith)
        requires
            h > 0,
            0 <= y <= h,
    ;
    assert(high <= low ==> high * h <= low * h + (high - low) * y <= low * h) by (nonlinear_arith)
        requires
            h > 0,
            0 <= y <= h,
    ;
}

/// A scaled centre computed from 32-bit tables at a 64-bit `y` is below 2^96 in size.
pub proof fn lemma_y_joint_bound(t: Tables, index: int, y: int)
    requires
        t.valid(),
        t.bounded(),
        0 <= index < t.len(),
        fits_i64(y),
    ensures
        -0x1_0000_0000_0000_0000_0000_0000 < spec_y_joint(t, index, y)
            < 0x1_0000_0000_0000_0000_0000_0000,
{
    let low = t.low[index];
    let high = t.high[index];
    lemma_product_bound(low, t.height, 0x8000_0000, 0x8000_0000);
    lemma_product_bound(high - low, y, 0x1_0000_0000, 0x8000_0000_0000_0000);
}

impl Layout {
    /// The scaled centre of grid line `index` at the vertical coordinate `y`.
    pub fn y_joint(&self, index: usize, y: i64) -> (r: Result<i128, LayoutError>)
        ensures
            match r {
                Ok(x) => index < self@.len() && x == spec_y_joint(self@, index as int, y as int),
                Err(e) => index >= self@.len() && e == LayoutError::InvalidIndex,
            },
    {
        if index >= self.len() {
            return Err(LayoutError::InvalidIndex);
        }
        let low = self.low_at(index);
        let high = self.high_at(index);
        let height = self.height();
        proof {
            self.lemma_bounded();
            lemma_y_joint_bound(self@, index as int, y as int);
            lemma_product_bound(low as int, height as int, 0x8000_0000, 0x8000_0000);
            lemma_product_bound(high - low, y as int, 0x1_0000_0000, 0x8000_0000_0000_0000);
        }
        let rise = wide_product(high as i64 - low as i64, y);
        Ok(wide_product(low as i64, height as i64) + rise)
    }
}

} // verus!
