use vstd::prelude::*;
use crate::arith::fits_i32;
use crate::error::LayoutError;

verus! {

/// The position tables and the vertical extent of a drawing.
///
/// `low[i]` and `high[i]` are the horizontal centres of grid line `i` at the
/// two ends of the vertical axis, `height` is the length of that axis and
/// `margin` is half the thickness of a grid line. A value of this type always
/// has two tables of one length, with at least one entry and no more than
/// 2^31 - 1, and a positive height.
pub struct Layout {
    pub(crate) low: Vec<i32>,
    pub(crate) high: Vec<i32>,
    pub(crate) height: i32,
    pub(crate) margin: i32,
}

/// What a [`Layout`] holds, as mathematical values.
pub ghost struct Tables {
    pub low: Seq<int>,
    pub high: Seq<int>,
    pub height: int,
    pub margin: int,
}

/// The entries of a table as mathematical integers.
pub open spec fn ints(s: Seq<i32>) -> Seq<int> {
    Seq::new(s.len(), |i: int| s[i] as int)
}

impl Tables {
    /// The tables have one length, from 1 to 2^31 - 1, and the height is positive.
    pub open spec fn valid(self) -> bool {
        &&& self.low.len() == self.high.len()
        &&& 0 < self.low.len() <= 0x7fff_ffff
        &&& self.height > 0
    }

    /// The number of grid lines.
    pub open spec fn len(self) -> int {
        self.low.len() as int
    }

    /// Every number in the tables is a value of a 32-bit signed integer.
    pub open spec fn bounded(self) -> bool {
        &&& fits_i32(self.height)
        &&& fits_i32(self.margin)
        &&& forall|i: int| 0 <= i < self.low.len() ==> fits_i32(#[trigger] self.low[i])
        &&& forall|i: int| 0 <= i < self.high.len() ==> fits_i32(#[trigger] self.high[i])
    }
}

impl View for Layout {
    type V = Tables;

    closed spec fn view(&self) -> Tables {
        Tables {
            low: ints(self.low@),
            high: ints(self.high@),
            height: self.height as int,
            margin: self.margin as int,
        }
    }
}

impl Layout {
    #[verifier::type_invariant]
    spec fn inv(self) -> bool {
        &&& self.low@.len() == self.high@.len()
        &&& 0 < self.low@.len() <= 0x7fff_ffff
        &&& self.height > 0
    }

    /// Builds a layout from its tables, or refuses them.
    pub fn new(low: Vec<i32>, high: Vec<i32>, height: i32, margin: i32) -> (r: Result<
        Layout,
        LayoutError,
    >)
        ensures
            match r {
                Ok(layout) => {
                    &&& layout@ == (Tables {
                        low: ints(low@),
                        high: ints(high@),
                        height: height as int,
                        margin: margin as int,
                    })
                    &&& layout@.valid()
                },
                Err(e) => {
                    &&& e == LayoutError::InvalidConfiguration
                    &&& (low@.len() != high@.len() || low@.len() == 0 || low@.len() > 0x7fff_ffff
                        || height <= 0)
                },
            },
    {
        if low.len() != high.len() || low.len() == 0 || low.len() > 0x7fff_ffff || height <= 0 {
            return Err(LayoutError::InvalidConfiguration);
        }
        Ok(Layout { low, high, height, margin })
    }

    /// A layout from tables that are known to be valid.
    pub(crate) fn assemble(low: Vec<i32>, high: Vec<i32>, height: i32, margin: i32) -> (r: Layout)
        requires
            low@.len() == high@.len(),
            0 < low@.len() <= 0x7fff_ffff,
            height > 0,
        ensures
            r@ == (Tables {
                low: ints(low@),
                high: ints(high@),
                height: height as int,
                margin: margin as int,
            }),
            r@.valid(),
    {
        Layout { low, high, height, margin }
    }

    /// The tables of a layout hold 32-bit values.
    pub proof fn lemma_bounded(&self)
        ensures
            self@.bounded(),
    {
    }

    pub(crate) fn low_at(&self, index: usize) -> (v: i32)
        requires
            index < self@.len(),
        ensures
            v == self@.low[index as int],
    {
        self.low[index]
    }

    pub(crate) fn high_at(&self, index: usize) -> (v: i32)
        requires
            index < self@.len(),
        ensures
            v == self@.high[index as int],
    {
        proof {
            use_type_invariant(self);
        }
        self.high[index]
    }

    /// The number of grid lines.
    pub fn len(&self) -> (n: usize)
        ensures
            n == self@.len(),
            0 < n <= 0x7fff_ffff,
            self@.valid(),
    {
        proof {
            use_type_invariant(self);
        }
        self.low.len()
    }

    /// The centre of grid line `index` where the vertical coordinate is zero.
    pub fn low(&self, index: usize) -> (r: Result<i32, LayoutError>)
        ensures
            match r {
                Ok(v) => index < self@.len() && v == self@.low[index as int],
                Err(e) => index >= self@.len() && e == LayoutError::InvalidIndex,
            },
    {
        if index < self.low.len() {
            Ok(self.low[index])
        } else {
            Err(LayoutError::InvalidIndex)
        }
    }

    /// The centre of grid line `index` where the vertical coordinate is the height.
    pub fn high(&self, index: usize) -> (r: Result<i32, LayoutError>)
        ensures
            match r {
                Ok(v) => index < self@.len() && v == self@.high[index as int],
                Err(e) => index >= self@.len() && e == LayoutError::InvalidIndex,
            },
    {
        proof {
            use_type_invariant(self);
        }
        if index < self.high.len() {
            Ok(self.high[index])
        } else {
            Err(LayoutError::InvalidIndex)
        }
    }

    /// The length of the vertical axis.
    pub fn height(&self) -> (h: i32)
        ensures
            h == self@.height,
            h > 0,
    {
        proof {
            use_type_invariant(self);
        }
        self.height
    }

    /// Half the thickness of a grid line.
    pub fn margin(&self) -> (m: i32)
        ensures
            m == self@.margin,
    {
        self.margin
    }
}

} // verus!
