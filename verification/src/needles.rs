use vstd::prelude::*;
use crate::arith::{fits_i32, lemma_product_bound};
use crate::error::LayoutError;

verus! {

/// One needle to place: the grid line that governs its skew, the vertical
/// coordinate at which it starts, and how far it extends from there.
#[derive(Debug, Clone, Copy, PartialEq, Eq, Structural)]
pub struct Needle {
    pub index: usize,
    pub y: i32,
    pub height: i32,
}

/// One pass of the layering: rows of needles of one height, stacked downwards
/// from `top`. Row `k` starts at grid line `offsets[k]`, and the first
/// `skipped` rows bear no needles.
pub struct Pass {
    pub offsets: Vec<usize>,
    pub skipped: usize,
    pub top: i32,
    pub needle_height: i32,
}

/// The rules from which a population of needles is laid out: the passes in
/// their order, the vertical coordinate `datum` that their tops are measured
/// from, the distance `stride` between the needles of a row, and the grid
/// line `ceiling` that no needle reaches.
pub struct Layering {
    pub passes: Vec<Pass>,
    pub datum: i32,
    pub stride: usize,
    pub ceiling: usize,
}

/// How far `offset` is below `ceiling`, or zero where it is not below.
pub open spec fn headroom(offset: int, ceiling: int) -> int {
    if offset < ceiling {
        ceiling - offset
    } else {
        0
    }
}

/// The needles of one row: one at grid line `offset` and one every `stride`
/// lines after it, as long as the line is before `ceiling`.
pub open spec fn row_needles(offset: int, stride: int, ceiling: int, y: int, height: int) -> Seq<
    Needle,
>
    decreases headroom(offset, ceiling),
{
    if stride <= 0 || offset >= ceiling {
        Seq::empty()
    } else {
        seq![Needle { index: offset as usize, y: y as i32, height: height as i32 }] + row_needles(
            offset + stride,
            stride,
            ceiling,
            y,
            height,
        )
    }
}

impl Pass {
    /// The vertical coordinate at which the needles of row `k` start: one
    /// needle height further down for each row.
    pub open spec fn row_y(self, datum: int, k: int) -> int {
        datum - self.top - self.needle_height * (k + 1)
    }

    /// Whether row `k` bears needles.
    pub open spec fn bears(self, k: int) -> bool {
        self.skipped <= k < self.offsets@.len()
    }

    /// Every row that bears needles starts at a 32-bit coordinate.
    pub open spec fn is_sound(self, datum: int) -> bool {
        forall|k: int| self.bears(k) ==> fits_i32(#[trigger] self.row_y(datum, k))
    }

    /// The needles of the first `rows` rows, row after row.
    pub open spec fn needles(self, datum: int, stride: int, ceiling: int, rows: int) -> Seq<Needle>
        decreases rows,
    {
        if rows <= 0 {
            Seq::empty()
        } else {
            self.needles(datum, stride, ceiling, rows - 1) + (if self.bears(rows - 1) {
                row_needles(
                    self.offsets@[rows - 1] as int,
                    stride,
                    ceiling,
                    self.row_y(datum, rows - 1),
                    self.needle_height as int,
                )
            } else {
                Seq::empty()
            })
        }
    }
}

impl Layering {
    /// The stride is positive and every pass is sound.
    pub open spec fn is_sound(self) -> bool {
        &&& self.stride > 0
        &&& forall|p: int|
            0 <= p < self.passes@.len() ==> (#[trigger] self.passes@[p]).is_sound(self.datum as int)
    }

    /// The needles of the first `n` passes, pass after pass.
    pub open spec fn needles(self, n: int) -> Seq<Needle>
        decreases n,
    {
        if n <= 0 {
            Seq::empty()
        } else {
            self.needles(n - 1) + self.passes@[n - 1].needles(
                self.datum as int,
                self.stride as int,
                self.ceiling as int,
                self.passes@[n - 1].offsets@.len() as int,
            )
        }
    }
}

/// The population that a layering describes: the needles of all its passes.
pub open spec fn spec_build_needles(layering: Layering) -> Seq<Needle> {
    layering.needles(layering.passes@.len() as int)
}

/// Needle `i` of a row stands at grid line `offset + i * stride`, before
/// `ceiling`, at the row's coordinate and with the row's height; and the row
/// ends only where the next line would not be before `ceiling`.
pub proof fn lemma_row_needles(offset: int, stride: int, ceiling: int, y: int, height: int)
    requires
        0 <= offset,
        0 < stride,
        ceiling <= usize::MAX,
        fits_i32(y),
        fits_i32(height),
    ensures
        forall|i: int|
            0 <= i < row_needles(offset, stride, ceiling, y, height).len() ==> {
                let needle = #[trigger] row_needles(offset, stride, ceiling, y, height)[i];
                &&& needle.index == offset + i * stride
                &&& needle.index < ceiling
                &&& needle.y == y
                &&& needle.height == height
            },
        offset + row_needles(offset, stride, ceiling, y, height).len() * stride >= ceiling,
    decreases headroom(offset, ceiling),
{
    let row = row_needles(offset, stride, ceiling, y, height);
    if offset < ceiling {
        let rest = row_needles(offset + stride, stride, ceiling, y, height);
        lemma_row_needles(offset + stride, stride, ceiling, y, height);
        assert forall|i: int| 0 <= i < row.len() implies {
            let needle = #[trigger] row[i];
            &&& needle.index == offset + i * stride
            &&& needle.index < ceiling
            &&& needle.y == y
            &&& needle.height == height
        } by {
            if i > 0 {
                assert(row[i] == rest[i - 1]);
                assert(offset + stride + (i - 1) * stride == offset + i * stride)
                    by (nonlinear_arith);
            } else {
                assert(offset + 0 * stride == offset) by (nonlinear_arith);
            }
        }
        assert(offset + stride + rest.len() * stride == offset + (rest.len() + 1) * stride)
            by (nonlinear_arith);
    } else {
        assert(row.len() * stride == 0) by (nonlinear_arith)
            requires
                row.len() == 0,
        ;
    }
}

/// No needle of a population stands at or after the ceiling of its layering.
pub proof fn lemma_population_below_ceiling(layering: Layering)
    requires
        layering.is_sound(),
    ensures
        forall|i: int|
            0 <= i < spec_build_needles(layering).len() ==> (#[trigger] spec_build_needles(
                layering,
            )[i]).index < layering.ceiling,
{
    lemma_passes_below_ceiling(layering, layering.passes@.len() as int);
}

proof fn lemma_passes_below_ceiling(layering: Layering, n: int)
    requires
        layering.is_sound(),
        0 <= n <= layering.passes@.len(),
    ensures
        forall|i: int|
            0 <= i < layering.needles(n).len() ==> (#[trigger] layering.needles(n)[i]).index
                < layering.ceiling,
    decreases n,
{
    if n > 0 {
        lemma_passes_below_ceiling(layering, n - 1);
        let pass = layering.passes@[n - 1];
        assert(pass.is_sound(layering.datum as int));
        lemma_rows_below_ceiling(
            pass,
            layering.datum as int,
            layering.stride as int,
            layering.ceiling as int,
            pass.offsets@.len() as int,
        );
        let before = layering.needles(n - 1);
        let added = pass.needles(
            layering.datum as int,
            layering.stride as int,
            layering.ceiling as int,
            pass.offsets@.len() as int,
        );
        assert forall|i: int| 0 <= i < layering.needles(n).len() implies (#[trigger] layering.needles(
            n,
        )[i]).index < layering.ceiling by {
            if i < before.len() {
                assert(layering.needles(n)[i] == before[i]);
            } else {
                assert(layering.needles(n)[i] == added[i - before.len()]);
            }
        }
    }
}

proof fn lemma_rows_below_ceiling(pass: Pass, datum: int, stride: int, ceiling: int, rows: int)
    requires
        pass.is_sound(datum),
        0 < stride,
        ceiling <= usize::MAX,
        0 <= rows <= pass.offsets@.len(),
    ensures
        forall|i: int|
            0 <= i < pass.needles(datum, stride, ceiling, rows).len() ==> (#[trigger] pass.needles(
                datum,
                stride,
                ceiling,
                rows,
            )[i]).index < ceiling,
    decreases rows,
{
    if rows > 0 {
        lemma_rows_below_ceiling(pass, datum, stride, ceiling, rows - 1);
        let before = pass.needles(datum, stride, ceiling, rows - 1);
        let all = pass.needles(datum, stride, ceiling, rows);
        if pass.bears(rows - 1) {
            let row = row_needles(
                pass.offsets@[rows - 1] as int,
                stride,
                ceiling,
                pass.row_y(datum, rows - 1),
                pass.needle_height as int,
            );
            lemma_row_needles(
                pass.offsets@[rows - 1] as int,
                stride,
                ceiling,
                pass.row_y(datum, rows - 1),
                pass.needle_height as int,
            );
            assert forall|i: int| 0 <= i < all.len() implies (#[trigger] all[i]).index
                < ceiling by {
                if i < before.len() {
                    assert(all[i] == before[i]);
                } else {
                    assert(all[i] == row[i - before.len()]);
                }
            }
        } else {
            assert(all == before);
        }
    }
}

/// Appends the needles of one row.
fn push_row(
    needles: &mut Vec<Needle>,
    offset: usize,
    stride: usize,
    ceiling: usize,
    y: i32,
    height: i32,
)
    requires
        stride > 0,
    ensures
        final(needles)@ == old(needles)@ + row_needles(
            offset as int,
            stride as int,
            ceiling as int,
            y as int,
            height as int,
        ),
{
    let ghost row = row_needles(offset as int, stride as int, ceiling as int, y as int, height as int);
    let mut index = offset;
    let mut open = true;
    while open && index < ceiling
        invariant
            stride > 0,
            needles@ + (if open {
                row_needles(index as int, stride as int, ceiling as int, y as int, height as int)
            } else {
                Seq::empty()
            }) == old(needles)@ + row,
        decreases (if open { 1 + headroom(index as int, ceiling as int) } else { 0 }),
    {
        let ghost rest = row_needles(
            index + stride,
            stride as int,
            ceiling as int,
            y as int,
            height as int,
        );
        let ghost before = needles@;
        needles.push(Needle { index, y, height });
        assert(needles@ + rest == before + (seq![Needle { index, y, height }] + rest));
        match index.checked_add(stride) {
            Some(next) => {
                index = next;
            },
            None => {
                assert(rest == Seq::<Needle>::empty());
                open = false;
            },
        }
    }
    assert(needles@ + Seq::<Needle>::empty() == needles@);
}

/// Appends the needles of one pass, or finds a row that starts outside the
/// 32-bit coordinates.
fn push_pass(
    needles: &mut Vec<Needle>,
    pass: &Pass,
    datum: i32,
    stride: usize,
    ceiling: usize,
) -> (r: Result<(), LayoutError>)
    requires
        stride > 0,
    ensures
        match r {
            Ok(_) => {
                &&& pass.is_sound(datum as int)
                &&& final(needles)@ == old(needles)@ + pass.needles(
                    datum as int,
                    stride as int,
                    ceiling as int,
                    pass.offsets@.len() as int,
                )
            },
            Err(e) => e == LayoutError::InvalidConfiguration && !pass.is_sound(datum as int),
        },
{
    let mut k: usize = 0;
    assert(needles@ + Seq::<Needle>::empty() == needles@);
    while k < pass.offsets.len()
        invariant
            stride > 0,
            0 <= k <= pass.offsets@.len(),
            forall|i: int| 0 <= i < k && pass.bears(i) ==> fits_i32(#[trigger] pass.row_y(datum as int, i)),
            needles@ == old(needles)@ + pass.needles(
                datum as int,
                stride as int,
                ceiling as int,
                k as int,
            ),
        decreases pass.offsets@.len() - k,
    {
        let ghost done = pass.needles(datum as int, stride as int, ceiling as int, k as int);
        if k >= pass.skipped {
            proof {
                lemma_product_bound(
                    pass.needle_height as int,
                    k + 1,
                    0x8000_0000,
                    0x1_0000_0000_0000_0000,
                );
            }
            let drop: i128 = (pass.needle_height as i128) * (k as i128 + 1);
            let y: i128 = datum as i128 - pass.top as i128 - drop;
            if y < -0x8000_0000 || y > 0x7fff_ffff {
                assert(pass.bears(k as int) && !fits_i32(pass.row_y(datum as int, k as int)));
                return Err(LayoutError::InvalidConfiguration);
            }
            push_row(needles, pass.offsets[k], stride, ceiling, y as i32, pass.needle_height);
            assert(needles@ == old(needles)@ + (done + row_needles(
                pass.offsets@[k as int] as int,
                stride as int,
                ceiling as int,
                y as int,
                pass.needle_height as int,
            )));
        } else {
            assert(needles@ == old(needles)@ + (done + Seq::<Needle>::empty()));
        }
        k = k + 1;
    }
    Ok(())
}

/// Lays out the population that `layering` describes: pass after pass, row
/// after row, and along each row from its offset in strides.
///
/// A stride of zero, or a row that would start outside the 32-bit
/// coordinates, is no configuration.
pub fn build_needles(layering: &Layering) -> (r: Result<Vec<Needle>, LayoutError>)
    ensures
        match r {
            Ok(needles) => {
                &&& layering.is_sound()
                &&& needles@ == spec_build_needles(*layering)
                &&& forall|i: int|
                    0 <= i < needles@.len() ==> (#[trigger] needles@[i]).index < layering.ceiling
            },
            Err(e) => e == LayoutError::InvalidConfiguration && !layering.is_sound(),
        },
{
    if layering.stride == 0 {
        return Err(LayoutError::InvalidConfiguration);
    }
    let mut needles: Vec<Needle> = Vec::new();
    let mut p: usize = 0;
    while p < layering.passes.len()
        invariant
            layering.stride > 0,
            0 <= p <= layering.passes@.len(),
            forall|i: int| 0 <= i < p ==> (#[trigger] layering.passes@[i]).is_sound(layering.datum as int),
            needles@ == layering.needles(p as int),
        decreases layering.passes@.len() - p,
    {
        match push_pass(
            &mut needles,
            &layering.passes[p],
            layering.datum,
            layering.stride,
            layering.ceiling,
        ) {
            Ok(_) => {},
            Err(e) => {
                return Err(e);
            },
        }
        p = p + 1;
    }
    proof {
        assert(layering.is_sound());
        lemma_population_below_ceiling(*layering);
        assert(needles@ == spec_build_needles(*layering));
        assert forall|i: int| 0 <= i < needles@.len() implies (#[trigger] needles@[i]).index
            < layering.ceiling by {
            assert(needles@[i] == spec_build_needles(*layering)[i]);
        }
    }
    Ok(needles)
}

} // verus!
