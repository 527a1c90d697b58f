use vstd::prelude::*;
use vstd::math::{max, min};
use crate::arith::{
    fits_i32,
    fits_i64,
    fits_scaled,
    lemma_product_bound,
    lemma_product_monotone,
    wide_product,
};
use crate::error::LayoutError;
use crate::layout::{Layout, Tables};
use crate::skew::{lemma_y_joint_bound, spec_y_joint};

verus! {

/// The scaled right bound that the window's own grid line imposes: its centre
/// less the margin. A window that starts left of the table takes line 0.
pub open spec fn right_first(t: Tables, base: int, y: int) -> int {
    spec_y_joint(t, if base < 0 { 0 } else { base }, y) - t.margin * t.height
}

/// The scaled right bound that repetition `j` imposes: the centre of grid
/// line `base + j`, less the margin, moved left by `j` shifts.
pub open spec fn right_term(t: Tables, base: int, j: int, y: int, shift: int) -> int {
    spec_y_joint(t, base + j, y) - t.margin * t.height - shift * j * t.height
}

/// The least of [`right_first`] and of [`right_term`] over the `j` in `[1, n)`
/// whose grid line `base + j` is not left of the table.
pub open spec fn right_least(t: Tables, base: int, y: int, shift: int, n: int) -> int
    decreases n,
{
    if n <= 1 {
        right_first(t, base, y)
    } else {
        let rest = right_least(t, base, y, shift, n - 1);
        if base + (n - 1) >= 0 {
            min(rest, right_term(t, base, n - 1, y, shift))
        } else {
            rest
        }
    }
}

/// The scaled right border of a window of `count` grid lines from `base` at
/// `y`: the tightest bound among the window's own line and its `count - 1`
/// repetitions to the right, each one shift further left than the one before.
pub open spec fn spec_right_border(t: Tables, count: int, base: int, y: int, shift: int) -> int {
    right_least(t, base, y, shift, count)
}

/// The scaled left bound that repetition `k` imposes: the centre of grid line
/// `base + k`, plus the margin, moved left by `k + 1` shifts. Repetition `-1`
/// is the line before the window, which is not moved.
pub open spec fn left_term(t: Tables, base: int, k: int, y: int, shift: int) -> int {
    spec_y_joint(t, base + k, y) + t.margin * t.height - shift * (k + 1) * t.height
}

/// The greatest of [`left_term`] over the `k` in `[-1, n)` whose grid line
/// `base + k` is not left of the table; `None` where there is no such `k`.
pub open spec fn left_greatest(t: Tables, base: int, y: int, shift: int, n: int) -> Option<int>
    decreases n + 1,
{
    if n <= -1 {
        None
    } else {
        let rest = left_greatest(t, base, y, shift, n - 1);
        if base + (n - 1) >= 0 {
            match rest {
                Some(m) => Some(max(m, left_term(t, base, n - 1, y, shift))),
                None => Some(left_term(t, base, n - 1, y, shift)),
            }
        } else {
            rest
        }
    }
}

/// The scaled left border of a window of `count` grid lines from `base` at
/// `y`: the tightest bound among the line before the window and the window's
/// first `count - 1` lines, or `None` where the window meets no grid line and
/// nothing bounds it on the left.
pub open spec fn spec_left_border(t: Tables, count: int, base: int, y: int, shift: int) -> Option<
    int,
> {
    left_greatest(t, base, y, shift, count - 1)
}

/// A computed left border as a mathematical value.
pub open spec fn bound_view(b: Option<i128>) -> Option<int> {
    match b {
        Some(v) => Some(v as int),
        None => None,
    }
}

/// The right border is one of the bounds it is taken over, and none of them
/// is tighter.
pub proof fn lemma_right_border_is_least(t: Tables, count: int, base: int, y: int, shift: int)
    ensures
        spec_right_border(t, count, base, y, shift) <= right_first(t, base, y),
        forall|j: int|
            1 <= j < count && base + j >= 0 ==> spec_right_border(t, count, base, y, shift)
                <= #[trigger] right_term(t, base, j, y, shift),
        spec_right_border(t, count, base, y, shift) == right_first(t, base, y) || exists|j: int|
            1 <= j < count && base + j >= 0 && spec_right_border(t, count, base, y, shift)
                == #[trigger] right_term(t, base, j, y, shift),
    decreases count,
{
    if count > 1 {
        lemma_right_border_is_least(t, count - 1, base, y, shift);
    }
}

/// The left border is `None` exactly where no grid line of the window, nor
/// the one before it, is in the table's range of indices from zero; else it
/// is one of the bounds it is taken over, and none of them is tighter.
pub proof fn lemma_left_border_is_greatest(t: Tables, count: int, base: int, y: int, shift: int)
    requires
        count >= 1,
    ensures
        spec_left_border(t, count, base, y, shift) is None <==> base + count - 2 < 0,
        spec_left_border(t, count, base, y, shift) matches Some(m) ==> {
            &&& forall|k: int|
                -1 <= k < count - 1 && base + k >= 0 ==> #[trigger] left_term(t, base, k, y, shift)
                    <= m
            &&& exists|k: int|
                -1 <= k < count - 1 && base + k >= 0 && m == #[trigger] left_term(
                    t,
                    base,
                    k,
                    y,
                    shift,
                )
        },
    decreases count,
{
    reveal_with_fuel(left_greatest, 2);
    if count > 1 {
        lemma_left_border_is_greatest(t, count - 1, base, y, shift);
    }
}

/// A larger shift never moves the right border to the right.
pub proof fn lemma_right_border_falls_with_shift(
    t: Tables,
    count: int,
    base: int,
    y: int,
    less: int,
    more: int,
)
    requires
        t.height > 0,
        less <= more,
    ensures
        spec_right_border(t, count, base, y, more) <= spec_right_border(t, count, base, y, less),
    decreases count,
{
    if count > 1 {
        lemma_right_border_falls_with_shift(t, count - 1, base, y, less, more);
        let j = count - 1;
        lemma_product_monotone(less, more, j);
        lemma_product_monotone(less * j, more * j, t.height);
    }
}

/// A larger shift never moves the left border to the right, and never
/// changes whether there is one.
pub proof fn lemma_left_border_falls_with_shift(
    t: Tables,
    count: int,
    base: int,
    y: int,
    less: int,
    more: int,
)
    requires
        t.height > 0,
        count >= 1,
        less <= more,
    ensures
        spec_left_border(t, count, base, y, more) is Some <==> spec_left_border(
            t,
            count,
            base,
            y,
            less,
        ) is Some,
        spec_left_border(t, count, base, y, more) is Some ==> spec_left_border(
            t,
            count,
            base,
            y,
            more,
        ).unwrap() <= spec_left_border(t, count, base, y, less).unwrap(),
    decreases count,
{
    reveal_with_fuel(left_greatest, 2);
    if count > 1 {
        lemma_left_border_falls_with_shift(t, count - 1, base, y, less, more);
        let k = count - 2;
        lemma_product_monotone(less, more, k + 1);
        lemma_product_monotone(less * (k + 1), more * (k + 1), t.height);
    }
}

/// What a bound is made of stays below 2^96, 2^62 and 2^94 in size.
pub proof fn lemma_term_parts_bound(t: Tables, index: int, times: int, y: int, shift: int)
    requires
        t.valid(),
        t.bounded(),
        0 <= index < t.len(),
        0 <= times <= 0xffff_ffff,
        fits_i64(y),
        fits_i32(shift),
    ensures
        -0x1_0000_0000_0000_0000_0000_0000 < spec_y_joint(t, index, y)
            < 0x1_0000_0000_0000_0000_0000_0000,
        -0x4000_0000_0000_0000 <= t.margin * t.height <= 0x4000_0000_0000_0000,
        -0x8000_0000_0000_0000 <= shift * times <= 0x8000_0000_0000_0000,
        -0x4000_0000_0000_0000_0000_0000 <= shift * times * t.height
            <= 0x4000_0000_0000_0000_0000_0000,
{
    lemma_y_joint_bound(t, index, y);
    lemma_product_bound(t.margin, t.height, 0x8000_0000, 0x8000_0000);
    lemma_product_bound(shift, times, 0x8000_0000, 0x1_0000_0000);
    lemma_product_bound(shift * times, t.height, 0x8000_0000_0000_0000, 0x8000_0000);
}

/// The right border of a window inside the table is within the scaled limit.
pub proof fn lemma_right_border_fits(t: Tables, count: int, base: int, y: int, shift: int)
    requires
        t.valid(),
        t.bounded(),
        1 <= count <= 0xffff_ffff,
        base + count - 1 < t.len(),
        fits_i64(y),
        fits_i32(shift),
    ensures
        fits_scaled(spec_right_border(t, count, base, y, shift)),
    decreases count,
{
    if count > 1 {
        lemma_right_border_fits(t, count - 1, base, y, shift);
        if base + (count - 1) >= 0 {
            lemma_term_parts_bound(t, base + count - 1, count - 1, y, shift);
        }
    } else {
        lemma_term_parts_bound(t, if base < 0 { 0 } else { base }, 0, y, shift);
    }
}

/// The left border of a window inside the table, where there is one, is
/// within the scaled limit.
pub proof fn lemma_left_border_fits(t: Tables, count: int, base: int, y: int, shift: int)
    requires
        t.valid(),
        t.bounded(),
        1 <= count <= 0xffff_ffff,
        base + count - 2 < t.len(),
        fits_i64(y),
        fits_i32(shift),
    ensures
        spec_left_border(t, count, base, y, shift) matches Some(m) ==> fits_scaled(m),
    decreases count,
{
    reveal_with_fuel(left_greatest, 2);
    if count > 1 {
        lemma_left_border_fits(t, count - 1, base, y, shift);
    }
    if base + count - 2 >= 0 {
        lemma_term_parts_bound(t, base + count - 2, count - 1, y, shift);
    }
}

/// `shift * times * height`, exactly.
fn shifted(shift: i32, times: u32, height: i32) -> (r: i128)
    ensures
        r == shift * times * height,
{
    proof {
        lemma_product_bound(shift as int, times as int, 0x8000_0000, 0x1_0000_0000);
        lemma_product_bound(
            shift * times,
            height as int,
            0x8000_0000_0000_0000,
            0x8000_0000,
        );
    }
    let once = wide_product(shift as i64, times as i64);
    once * (height as i128)
}

impl Layout {
    /// The scaled right border of the window of `count` grid lines from
    /// `base`, at the vertical coordinate `y` and with `shift` between
    /// repetitions.
    ///
    /// A window of no lines is no configuration, and a window that reaches
    /// beyond the last grid line has an invalid index. Lines left of the
    /// table are passed over, save that the window's own line is then line 0.
    pub fn right_border(&self, count: u32, base: i64, y: i64, shift: i32) -> (r: Result<
        i128,
        LayoutError,
    >)
        ensures
            match r {
                Ok(x) => {
                    &&& count >= 1
                    &&& base + count - 1 < self@.len()
                    &&& x == spec_right_border(
                        self@,
                        count as int,
                        base as int,
                        y as int,
                        shift as int,
                    )
                },
                Err(e) => if count == 0 {
                    e == LayoutError::InvalidConfiguration
                } else {
                    base + count - 1 >= self@.len() && e == LayoutError::InvalidIndex
                },
            },
    {
        if count == 0 {
            return Err(LayoutError::InvalidConfiguration);
        }
        let n = self.len();
        if base as i128 + count as i128 - 1 >= n as i128 {
            return Err(LayoutError::InvalidIndex);
        }
        let height = self.height();
        let clearance = wide_product(self.margin() as i64, height as i64);
        let first: usize = if base < 0 {
            0
        } else {
            base as usize
        };
        proof {
            self.lemma_bounded();
            lemma_term_parts_bound(self@, first as int, 0, y as int, shift as int);
        }
        let mut least: i128 = match self.y_joint(first, y) {
            Ok(x) => x - clearance,
            Err(e) => {
                return Err(e);
            },
        };
        let mut j: u32 = 1;
        while j < count
            invariant
                1 <= j <= count,
                self@.valid(),
                self@.bounded(),
                n == self@.len(),
                height == self@.height,
                clearance == self@.margin * self@.height,
                base + count - 1 < n,
                least == right_least(self@, base as int, y as int, shift as int, j as int),
            decreases count - j,
        {
            let index: i128 = base as i128 + j as i128;
            if index >= 0 {
                proof {
                    lemma_term_parts_bound(self@, index as int, j as int, y as int, shift as int);
                }
                let centre = match self.y_joint(index as usize, y) {
                    Ok(x) => x,
                    Err(e) => {
                        return Err(e);
                    },
                };
                let x = centre - clearance - shifted(shift, j, height);
                if x < least {
                    least = x;
                }
            }
            j = j + 1;
        }
        Ok(least)
    }

    /// The scaled left border of the window of `count` grid lines from
    /// `base`, at the vertical coordinate `y` and with `shift` between
    /// repetitions; `None` where nothing bounds the window on the left.
    ///
    /// A window of no lines is no configuration, and a window whose first
    /// `count - 1` lines reach beyond the last grid line has an invalid
    /// index. Lines left of the table are passed over.
    pub fn left_border(&self, count: u32, base: i64, y: i64, shift: i32) -> (r: Result<
        Option<i128>,
        LayoutError,
    >)
        ensures
            match r {
                Ok(b) => {
                    &&& count >= 1
                    &&& base + count - 2 < self@.len()
                    &&& bound_view(b) == spec_left_border(
                        self@,
                        count as int,
                        base as int,
                        y as int,
                        shift as int,
                    )
                },
                Err(e) => if count == 0 {
                    e == LayoutError::InvalidConfiguration
                } else {
                    base + count - 2 >= self@.len() && e == LayoutError::InvalidIndex
                },
            },
    {
        if count == 0 {
            return Err(LayoutError::InvalidConfiguration);
        }
        let n = self.len();
        if base as i128 + count as i128 - 2 >= n as i128 {
            return Err(LayoutError::InvalidIndex);
        }
        let height = self.height();
        let clearance = wide_product(self.margin() as i64, height as i64);
        proof {
            self.lemma_bounded();
            reveal_with_fuel(left_greatest, 2);
        }
        let mut greatest: Option<i128> = None;
        if base > 0 {
            proof {
                lemma_term_parts_bound(self@, base - 1, 0, y as int, shift as int);
            }
            match self.y_joint((base - 1) as usize, y) {
                Ok(x) => {
                    greatest = Some(x + clearance);
                },
                Err(e) => {
                    return Err(e);
                },
            }
        }
        let mut j: u32 = 0;
        while j < count - 1
            invariant
                0 <= j <= count - 1,
                self@.valid(),
                self@.bounded(),
                n == self@.len(),
                height == self@.height,
                clearance == self@.margin * self@.height,
                base + count - 2 < n,
                bound_view(greatest) == left_greatest(
                    self@,
                    base as int,
                    y as int,
                    shift as int,
                    j as int,
                ),
            decreases count - j,
        {
            let index: i128 = base as i128 + j as i128;
            if index >= 0 {
                proof {
                    lemma_term_parts_bound(
                        self@,
                        index as int,
                        j + 1,
                        y as int,
                        shift as int,
                    );
                }
                let centre = match self.y_joint(index as usize, y) {
                    Ok(x) => x,
                    Err(e) => {
                        return Err(e);
                    },
                };
                let x = centre + clearance - shifted(shift, j + 1, height);
                greatest =
                match greatest {
                    Some(g) => Some(
                        if x > g {
                            x
                        } else {
                            g
                        },
                    ),
                    None => Some(x),
                };
            }
            j = j + 1;
        }
        Ok(greatest)
    }
}

} // verus!
