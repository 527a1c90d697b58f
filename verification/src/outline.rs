use vstd::prelude::*;
use crate::arith::{lemma_product_bound, wide_product};
use crate::error::LayoutError;
use crate::layout::{Layout, Tables};
use crate::needles::Needle;
use crate::optimize::{can_bear, needle_width};
use crate::space::spec_needle_space;

verus! {

/// What the needles are cut with: the width that a needle needs, and the
/// radius of the beam that cuts along its outline.
#[derive(Debug, Clone, Copy, PartialEq, Eq, Structural)]
pub struct Tool {
    pub needle_width: i32,
    pub laser_radius: i32,
}

impl Tool {
    /// The width of the line that the beam leaves: twice its radius.
    pub fn stroke_width(&self) -> (w: i64)
        ensures
            w == 2 * self.laser_radius,
    {
        2 * (self.laser_radius as i64)
    }
}

/// The rectangle along which one needle is cut, in the coordinates of the
/// drawing, whose vertical axis points down. `left` and `right` are
/// positions multiplied by twice the drawing height; `bottom` and `top` are
/// plain coordinates.
#[derive(Debug, Clone, Copy, PartialEq, Eq, Structural)]
pub struct Outline {
    pub left: i128,
    pub right: i128,
    pub bottom: i64,
    pub top: i64,
}

/// The room of a needle as it shows in one repetition of the template, in
/// the coordinates of the drawing. `left` and `right` are scaled positions.
#[derive(Debug, Clone, Copy, PartialEq, Eq, Structural)]
pub struct Band {
    pub left: i128,
    pub right: i128,
    pub bottom: i64,
    pub top: i64,
}

/// The four corners of a grid line in the coordinates of the drawing: its
/// `low` end lies at the bottom of the drawing, at the vertical coordinate
/// `height`, and its `high` end at the top, at zero.
#[derive(Debug, Clone, Copy, PartialEq, Eq, Structural)]
pub struct GridLine {
    pub low_left: i64,
    pub low_right: i64,
    pub high_left: i64,
    pub high_right: i64,
}

/// Why a needle cannot be drawn at a shift, if that is so: a window of no
/// lines, a needle that the tables cannot bear, or a room whose ends are
/// crossed, in this order.
pub open spec fn needle_fault(t: Tables, count: int, needle: Needle, shift: int) -> Option<
    LayoutError,
> {
    if count == 0 {
        Some(LayoutError::InvalidConfiguration)
    } else if !can_bear(t, needle) {
        Some(LayoutError::InvalidIndex)
    } else if needle_width(t, count, needle, shift) < 0 {
        Some(LayoutError::InfeasibleSpacing)
    } else {
        None
    }
}

/// How far the last repetition of the template lies from the first, scaled:
/// `count - 1` shifts.
pub open spec fn spread(t: Tables, count: int, shift: int) -> int {
    (count - 1) * shift * t.height
}

/// Twice the scaled centre of a needle: the middle of its room, moved into
/// the last repetition of the template.
pub open spec fn outline_centre(t: Tables, count: int, needle: Needle, shift: int) -> int {
    let room = spec_needle_space(
        t,
        count,
        needle.index as int,
        needle.y as int,
        shift,
        needle.height as int,
    );
    room.0 + room.1 + 2 * spread(t, count, shift)
}

/// Twice the scaled distance from the centre of a needle to the path of the
/// beam on either side: half the needle's width less the beam's radius.
pub open spec fn outline_reach(t: Tables, tool: Tool) -> int {
    tool.needle_width * t.height - 2 * (tool.laser_radius * t.height)
}

/// Whether `outline` is the path of the beam around `needle`: centred in the
/// needle's room in the last repetition, as wide as the tool asks, as high
/// as the needle, and everywhere one radius inside the needle's edge.
pub open spec fn is_outline(
    t: Tables,
    count: int,
    needle: Needle,
    shift: int,
    tool: Tool,
    outline: Outline,
) -> bool {
    &&& outline.left == outline_centre(t, count, needle, shift) - outline_reach(t, tool)
    &&& outline.right == outline_centre(t, count, needle, shift) + outline_reach(t, tool)
    &&& outline.bottom == t.height - needle.y - tool.laser_radius
    &&& outline.top == t.height - needle.y - needle.height + tool.laser_radius
}

/// Whether `band` is the room of `needle` as it shows in repetition `j`,
/// counted from the last: moved right by `count - 1 - j` shifts, and as high
/// as the needle.
pub open spec fn is_band(t: Tables, count: int, needle: Needle, shift: int, j: int, band: Band) -> bool {
    let room = spec_needle_space(
        t,
        count,
        needle.index as int,
        needle.y as int,
        shift,
        needle.height as int,
    );
    &&& band.left == room.0 + spread(t, count - j, shift)
    &&& band.right == room.1 + spread(t, count - j, shift)
    &&& band.bottom == t.height - needle.y
    &&& band.top == t.height - needle.y - needle.height
}

/// `(count - 1) * shift * height`, exactly.
fn spread_of(count: u32, shift: i32, height: i32) -> (r: i128)
    requires
        count >= 1,
    ensures
        r == (count - 1) * shift * height,
        -0x4000_0000_0000_0000_0000_0000 <= r <= 0x4000_0000_0000_0000_0000_0000,
{
    proof {
        lemma_product_bound(count - 1, shift as int, 0x1_0000_0000, 0x8000_0000);
        lemma_product_bound(
            (count - 1) * shift,
            height as int,
            0x8000_0000_0000_0000,
            0x8000_0000,
        );
    }
    let once = wide_product(count as i64 - 1, shift as i64);
    once * (height as i128)
}

impl Layout {
    /// The path of the beam around `needle` at `shift`, or the needle's
    /// fault.
    pub fn needle_outline(&self, count: u32, needle: &Needle, shift: i32, tool: &Tool) -> (r:
        Result<Outline, LayoutError>)
        ensures
            match r {
                Ok(outline) => {
                    &&& needle_fault(self@, count as int, *needle, shift as int) is None
                    &&& is_outline(self@, count as int, *needle, shift as int, *tool, outline)
                },
                Err(e) => needle_fault(self@, count as int, *needle, shift as int) == Some(e),
            },
    {
        let room = match self.needle_space(count, needle.index, needle.y, shift, needle.height) {
            Ok(room) => room,
            Err(e) => {
                return Err(e);
            },
        };
        if !room.is_feasible() {
            return Err(LayoutError::InfeasibleSpacing);
        }
        let height = self.height();
        proof {
            lemma_product_bound(
                tool.needle_width as int,
                height as int,
                0x8000_0000,
                0x8000_0000,
            );
            lemma_product_bound(
                tool.laser_radius as int,
                height as int,
                0x8000_0000,
                0x8000_0000,
            );
        }
        let reach = wide_product(tool.needle_width as i64, height as i64) - 2 * wide_product(
            tool.laser_radius as i64,
            height as i64,
        );
        let centre = room.left + room.right + 2 * spread_of(count, shift, height);
        Ok(
            Outline {
                left: centre - reach,
                right: centre + reach,
                bottom: height as i64 - needle.y as i64 - tool.laser_radius as i64,
                top: height as i64 - needle.y as i64 - needle.height as i64
                    + tool.laser_radius as i64,
            },
        )
    }

    /// The room of `needle` at `shift` as it shows in each of the `count`
    /// repetitions of the template, the last repetition first: that is the
    /// one in which the needle is cut.
    pub fn needle_space_bands(&self, count: u32, needle: &Needle, shift: i32) -> (r: Result<
        Vec<Band>,
        LayoutError,
    >)
        ensures
            match r {
                Ok(bands) => {
                    &&& count >= 1
                    &&& can_bear(self@, *needle)
                    &&& bands@.len() == count
                    &&& forall|j: int|
                        0 <= j < count ==> is_band(
                            self@,
                            count as int,
                            *needle,
                            shift as int,
                            j,
                            #[trigger] bands@[j],
                        )
                },
                Err(e) => if count == 0 {
                    e == LayoutError::InvalidConfiguration
                } else {
                    !can_bear(self@, *needle) && e == LayoutError::InvalidIndex
                },
            },
    {
        let room = match self.needle_space(count, needle.index, needle.y, shift, needle.height) {
            Ok(room) => room,
            Err(e) => {
                return Err(e);
            },
        };
        let height = self.height();
        let bottom = height as i64 - needle.y as i64;
        let top = bottom - needle.height as i64;
        let mut bands: Vec<Band> = Vec::new();
        let mut j: u32 = 0;
        while j < count
            invariant
                0 <= j <= count,
                height == self@.height,
                room.fits(),
                (room.left as int, room.right as int) == spec_needle_space(
                    self@,
                    count as int,
                    needle.index as int,
                    needle.y as int,
                    shift as int,
                    needle.height as int,
                ),
                bottom == self@.height - needle.y,
                top == self@.height - needle.y - needle.height,
                bands@.len() == j,
                forall|i: int|
                    0 <= i < j ==> is_band(
                        self@,
                        count as int,
                        *needle,
                        shift as int,
                        i,
                        #[trigger] bands@[i],
                    ),
            decreases count - j,
        {
            let moved = spread_of(count - j, shift, height);
            bands.push(Band { left: room.left + moved, right: room.right + moved, bottom, top });
            j = j + 1;
        }
        Ok(bands)
    }

    /// The corners of grid line `index`, a margin to either side of its
    /// centre at both ends.
    pub fn grid_line(&self, index: usize) -> (r: Result<GridLine, LayoutError>)
        ensures
            match r {
                Ok(line) => {
                    &&& index < self@.len()
                    &&& line.low_left == self@.low[index as int] - self@.margin
                    &&& line.low_right == self@.low[index as int] + self@.margin
                    &&& line.high_left == self@.high[index as int] - self@.margin
                    &&& line.high_right == self@.high[index as int] + self@.margin
                },
                Err(e) => index >= self@.len() && e == LayoutError::InvalidIndex,
            },
    {
        if index >= self.len() {
            return Err(LayoutError::InvalidIndex);
        }
        let low = self.low_at(index) as i64;
        let high = self.high_at(index) as i64;
        let margin = self.margin() as i64;
        Ok(
            GridLine {
                low_left: low - margin,
                low_right: low + margin,
                high_left: high - margin,
                high_right: high + margin,
            },
        )
    }
}

} // verus!
