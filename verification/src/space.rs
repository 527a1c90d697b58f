use vstd::prelude::*;
use vstd::math::{max, min};
use crate::arith::fits_scaled;
use crate::border::{
    lemma_left_border_fits,
    lemma_left_border_is_greatest,
    lemma_right_border_fits,
    spec_left_border,
    spec_right_border,
};
use crate::error::LayoutError;
use crate::layout::{Layout, Tables};

verus! {

/// A horizontal interval between two scaled positions. Its right end may lie
/// left of its left end: nothing then fits into it.
#[derive(Debug, Clone, Copy, PartialEq, Eq, Structural)]
pub struct Interval {
    pub left: i128,
    pub right: i128,
}

impl Interval {
    /// The scaled width, negative where the ends are crossed.
    pub open spec fn spec_width(self) -> int {
        self.right - self.left
    }

    /// Both ends are within the scaled limit.
    pub open spec fn fits(self) -> bool {
        fits_scaled(self.left as int) && fits_scaled(self.right as int)
    }

    /// The scaled width, negative where the ends are crossed.
    pub fn width(&self) -> (w: i128)
        requires
            self.fits(),
        ensures
            w == self.spec_width(),
    {
        self.right - self.left
    }

    /// Whether the right end is not left of the left end.
    pub fn is_feasible(&self) -> (b: bool)
        ensures
            b <==> self.left <= self.right,
    {
        self.left <= self.right
    }
}

/// The first grid line of the window around slot `index`: the window is
/// placed so that the slot's own line is the last but one of its `count`.
pub open spec fn window_base(count: int, index: int) -> int {
    index - (count - 2)
}

/// The scaled ends `(left, right)` of the room that slot `index` has over the
/// vertical span from `y` to `y + span`: the left and right borders of its
/// window are taken at both ends of the span, and on each side the tighter
/// one holds.
pub open spec fn spec_needle_space(
    t: Tables,
    count: int,
    index: int,
    y: int,
    shift: int,
    span: int,
) -> (int, int) {
    let base = window_base(count, index);
    (
        max(
            spec_left_border(t, count, base, y, shift).unwrap(),
            spec_left_border(t, count, base, y + span, shift).unwrap(),
        ),
        min(
            spec_right_border(t, count, base, y, shift),
            spec_right_border(t, count, base, y + span, shift),
        ),
    )
}

/// The scaled width of the room of a slot: right end less left end.
pub open spec fn spec_needle_width(
    t: Tables,
    count: int,
    index: int,
    y: int,
    shift: int,
    span: int,
) -> int {
    spec_needle_space(t, count, index, y, shift, span).1 - spec_needle_space(
        t,
        count,
        index,
        y,
        shift,
        span,
    ).0
}

/// The window around a slot always meets a grid line on its left, so the
/// slot's room has a left end.
pub proof fn lemma_needle_space_is_bounded(t: Tables, count: int, index: int, y: int, shift: int)
    requires
        count >= 1,
        index >= 0,
    ensures
        spec_left_border(t, count, window_base(count, index), y, shift) is Some,
{
    lemma_left_border_is_greatest(t, count, window_base(count, index), y, shift);
}

impl Layout {
    /// The room of slot `index` over the vertical span from `y` to
    /// `y + span`, with `shift` between repetitions of a window of `count`
    /// grid lines.
    ///
    /// A window of no lines is no configuration. The slot's window ends one
    /// line after the slot's own, so the last grid line can bear no slot: its
    /// index, and any beyond, is invalid.
    pub fn needle_space(&self, count: u32, index: usize, y: i32, shift: i32, span: i32) -> (r:
        Result<Interval, LayoutError>)
        ensures
            match r {
                Ok(room) => {
                    &&& count >= 1
                    &&& index + 1 < self@.len()
                    &&& (room.left as int, room.right as int) == spec_needle_space(
                        self@,
                        count as int,
                        index as int,
                        y as int,
                        shift as int,
                        span as int,
                    )
                    &&& room.fits()
                },
                Err(e) => if count == 0 {
                    e == LayoutError::InvalidConfiguration
                } else {
                    index + 1 >= self@.len() && e == LayoutError::InvalidIndex
                },
            },
    {
        if count == 0 {
            return Err(LayoutError::InvalidConfiguration);
        }
        let n = self.len();
        if index >= n - 1 {
            return Err(LayoutError::InvalidIndex);
        }
        let base: i64 = index as i64 - (count as i64 - 2);
        let top: i64 = y as i64;
        let bottom: i64 = y as i64 + span as i64;
        proof {
            self.lemma_bounded();
            lemma_needle_space_is_bounded(self@, count as int, index as int, top as int, shift as int);
            lemma_needle_space_is_bounded(
                self@,
                count as int,
                index as int,
                bottom as int,
                shift as int,
            );
            lemma_left_border_fits(self@, count as int, base as int, top as int, shift as int);
            lemma_left_border_fits(self@, count as int, base as int, bottom as int, shift as int);
            lemma_right_border_fits(self@, count as int, base as int, top as int, shift as int);
            lemma_right_border_fits(self@, count as int, base as int, bottom as int, shift as int);
        }
        let left_top = match self.left_border(count, base, top, shift) {
            Ok(Some(x)) => x,
            Ok(None) => {
                return Err(LayoutError::InvalidIndex);
            },
            Err(e) => {
                return Err(e);
            },
        };
        let left_bottom = match self.left_border(count, base, bottom, shift) {
            Ok(Some(x)) => x,
            Ok(None) => {
                return Err(LayoutError::InvalidIndex);
            },
            Err(e) => {
                return Err(e);
            },
        };
        let right_top = match self.right_border(count, base, top, shift) {
            Ok(x) => x,
            Err(e) => {
                return Err(e);
            },
        };
        let right_bottom = match self.right_border(count, base, bottom, shift) {
            Ok(x) => x,
            Err(e) => {
                return Err(e);
            },
        };
        Ok(
            Interval {
                left: if left_top >= left_bottom {
                    left_top
                } else {
                    left_bottom
                },
                right: if right_top <= right_bottom {
                    right_top
                } else {
                    right_bottom
                },
            },
        )
    }
}

} // verus!
