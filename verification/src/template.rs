//! The configuration of the template that this crate was made for. Every
//! length is in hundredths of the unit of the drawing.

use vstd::prelude::*;
use crate::layout::{ints, Layout, Tables};
use crate::needles::{Layering, Pass};
use crate::optimize::{Candidates, ShiftRange};
use crate::outline::Tool;

verus! {

/// The number of grid lines in a window: the template is used three times.
pub const COUNT: u32 = 3;

/// The width of the drawing.
pub const WIDTH: i32 = 32100;

/// The height of the drawing.
pub const HEIGHT: i32 = 12500;

/// Half the thickness of a grid line.
pub const GRID_WIDTH: i32 = 250;

/// The centres of the grid lines at vertical coordinate zero.
pub open spec fn low_positions() -> Seq<int> {
    seq![
        2560,
        4330,
        6020,
        7640,
        9320,
        11000,
        12620,
        14300,
        16100,
        17680,
        19350,
        21020,
        22500,
        24200,
        26000,
        27480,
        29250,
        30860,
    ]
}

/// The centres of the grid lines at the full height.
pub open spec fn high_positions() -> Seq<int> {
    seq![
        2600,
        4250,
        5920,
        7500,
        9080,
        10760,
        12510,
        14080,
        15860,
        17460,
        19250,
        20860,
        22470,
        24180,
        25870,
        27600,
        29230,
        30900,
    ]
}

/// The position tables of the template: eighteen grid lines.
pub fn layout() -> (r: Layout)
    ensures
        r@ == (Tables {
            low: low_positions(),
            high: high_positions(),
            height: HEIGHT as int,
            margin: GRID_WIDTH as int,
        }),
        r@.valid(),
{
    let low: Vec<i32> = vec![
        2560,
        4330,
        6020,
        7640,
        9320,
        11000,
        12620,
        14300,
        16100,
        17680,
        19350,
        21020,
        22500,
        24200,
        26000,
        27480,
        29250,
        30860,
    ];
    let high: Vec<i32> = vec![
        2600,
        4250,
        5920,
        7500,
        9080,
        10760,
        12510,
        14080,
        15860,
        17460,
        19250,
        20860,
        22470,
        24180,
        25870,
        27600,
        29230,
        30900,
    ];
    assert(ints(low@) =~= low_positions());
    assert(ints(high@) =~= high_positions());
    Layout::assemble(low, high, HEIGHT, GRID_WIDTH)
}

/// The layering of the template: five rows of short needles, each starting
/// one grid line after the row above, and below them two rows of long
/// needles that continue that staggering after three rows left out.
pub fn layering() -> (r: Layering)
    ensures
        r.passes@.len() == 2,
        r.passes@[0].offsets@ == seq![0usize, 1, 2, 0, 1],
        r.passes@[0].skipped == 0,
        r.passes@[0].top == 12100,
        r.passes@[0].needle_height == 1240,
        r.passes@[1].offsets@ == seq![2usize, 0, 1, 2, 0],
        r.passes@[1].skipped == 3,
        r.passes@[1].top == 14175,
        r.passes@[1].needle_height == 1473,
        r.datum == 22500,
        r.stride == 3,
        r.ceiling == 17,
{
    let short = Pass { offsets: vec![0, 1, 2, 0, 1], skipped: 0, top: 12100, needle_height: 1240 };
    let long = Pass { offsets: vec![2, 0, 1, 2, 0], skipped: 3, top: 14175, needle_height: 1473 };
    Layering { passes: vec![short, long], datum: 22500, stride: 3, ceiling: 17 }
}

/// The candidate shifts of the template: 15.6 to 17.9, 0.1 apart.
pub fn shift_range() -> (r: ShiftRange)
    ensures
        r@ == (Candidates { first: 1560, last: 1790, step: 10 }),
        r@.valid(),
{
    ShiftRange::assemble(1560, 1790, 10)
}

/// The tool of the template: needles 3 wide, cut by a beam of radius 0.5.
pub fn tool() -> (r: Tool)
    ensures
        r == (Tool { needle_width: 300, laser_radius: 50 }),
{
    Tool { needle_width: 300, laser_radius: 50 }
}

} // verus!
