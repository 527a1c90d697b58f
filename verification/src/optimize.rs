use vstd::prelude::*;
use vstd::math::min;
use crate::arith::lemma_product_monotone;
use crate::error::LayoutError;
use crate::layout::{Layout, Tables};
use crate::needles::Needle;
use crate::space::spec_needle_width;

verus! {

/// The candidate shifts of a search: `first`, `first + step`, and so on, as
/// far as `last`. A value of this type always has a positive step and a
/// first candidate that is not beyond the last.
pub struct ShiftRange {
    pub(crate) first: i32,
    pub(crate) last: i32,
    pub(crate) step: i32,
}

/// What a [`ShiftRange`] holds, as mathematical values.
pub ghost struct Candidates {
    pub first: int,
    pub last: int,
    pub step: int,
}

impl Candidates {
    /// The step is positive and there is at least one candidate.
    pub open spec fn valid(self) -> bool {
        self.step > 0 && self.first <= self.last
    }

    /// The candidate numbered `k`, counting from zero.
    pub open spec fn at(self, k: int) -> int {
        self.first + k * self.step
    }

    /// Whether `k` numbers a candidate.
    pub open spec fn has(self, k: int) -> bool {
        0 <= k && self.at(k) <= self.last
    }
}

impl View for ShiftRange {
    type V = Candidates;

    closed spec fn view(&self) -> Candidates {
        Candidates { first: self.first as int, last: self.last as int, step: self.step as int }
    }
}

impl ShiftRange {
    #[verifier::type_invariant]
    spec fn inv(self) -> bool {
        self.step > 0 && self.first <= self.last
    }

    /// The range of the candidates from `first` to `last`, `step` apart, or
    /// a refusal where the step is not positive or `first` is beyond `last`.
    pub fn new(first: i32, last: i32, step: i32) -> (r: Result<ShiftRange, LayoutError>)
        ensures
            match r {
                Ok(range) => {
                    &&& range@ == (Candidates {
                        first: first as int,
                        last: last as int,
                        step: step as int,
                    })
                    &&& range@.valid()
                },
                Err(e) => e == LayoutError::InvalidConfiguration && (step <= 0 || first > last),
            },
    {
        if step <= 0 || first > last {
            return Err(LayoutError::InvalidConfiguration);
        }
        Ok(ShiftRange { first, last, step })
    }

    /// A range from bounds that are known to be valid.
    pub(crate) fn assemble(first: i32, last: i32, step: i32) -> (r: ShiftRange)
        requires
            step > 0,
            first <= last,
        ensures
            r@ == (Candidates { first: first as int, last: last as int, step: step as int }),
            r@.valid(),
    {
        ShiftRange { first, last, step }
    }

    /// The first candidate.
    pub fn first(&self) -> (v: i32)
        ensures
            v == self@.first,
            self@.valid(),
    {
        proof {
            use_type_invariant(self);
        }
        self.first
    }

    /// The bound that no candidate exceeds.
    pub fn last(&self) -> (v: i32)
        ensures
            v == self@.last,
            self@.valid(),
    {
        proof {
            use_type_invariant(self);
        }
        self.last
    }

    /// The distance from one candidate to the next.
    pub fn step(&self) -> (v: i32)
        ensures
            v == self@.step,
            self@.valid(),
    {
        proof {
            use_type_invariant(self);
        }
        self.step
    }
}

/// Whether the tables have a grid line after the needle's own, which its
/// window needs.
pub open spec fn can_bear(t: Tables, needle: Needle) -> bool {
    needle.index + 1 < t.len()
}

/// The scaled width of the room of a needle at a shift.
pub open spec fn needle_width(t: Tables, count: int, needle: Needle, shift: int) -> int {
    spec_needle_width(t, count, needle.index as int, needle.y as int, shift, needle.height as int)
}

/// The least scaled width among the first `n` needles, for `n` of 1 or more.
pub open spec fn least_width(t: Tables, count: int, needles: Seq<Needle>, shift: int, n: int) -> int
    decreases n,
{
    if n <= 1 {
        needle_width(t, count, needles[0], shift)
    } else {
        min(
            least_width(t, count, needles, shift, n - 1),
            needle_width(t, count, needles[n - 1], shift),
        )
    }
}

/// The scaled width of the narrowest room that any needle has at a shift.
pub open spec fn spec_min_space(t: Tables, count: int, needles: Seq<Needle>, shift: int) -> int {
    least_width(t, count, needles, shift, needles.len() as int)
}

/// Why no width can be computed for a population, if that is so: a window
/// of no lines, no needles, or a needle that the tables cannot bear, in this
/// order.
pub open spec fn population_fault(t: Tables, count: int, needles: Seq<Needle>) -> Option<
    LayoutError,
> {
    if count == 0 {
        Some(LayoutError::InvalidConfiguration)
    } else if needles.len() == 0 {
        Some(LayoutError::EmptyPopulation)
    } else if exists|i: int| 0 <= i < needles.len() && !can_bear(t, #[trigger] needles[i]) {
        Some(LayoutError::InvalidIndex)
    } else {
        None
    }
}

/// Whether `k` numbers the first of the candidates at which the narrowest
/// room is as wide as it gets: no candidate gives more, and every earlier
/// one gives less.
pub open spec fn is_best(
    t: Tables,
    count: int,
    needles: Seq<Needle>,
    c: Candidates,
    k: int,
) -> bool {
    &&& c.has(k)
    &&& forall|i: int|
        c.has(i) ==> spec_min_space(t, count, needles, #[trigger] c.at(i)) <= spec_min_space(
            t,
            count,
            needles,
            c.at(k),
        )
    &&& forall|i: int|
        0 <= i < k ==> spec_min_space(t, count, needles, #[trigger] c.at(i)) < spec_min_space(
            t,
            count,
            needles,
            c.at(k),
        )
}

/// Whether `shift` is the lowest candidate that makes the narrowest room as
/// wide as any candidate can.
pub open spec fn is_optimal_shift(
    t: Tables,
    count: int,
    needles: Seq<Needle>,
    c: Candidates,
    shift: int,
) -> bool {
    exists|k: int| #[trigger] is_best(t, count, needles, c, k) && shift == c.at(k)
}

/// What a search may return: the fault of the population where it has one;
/// else the optimal shift where that leaves the narrowest room a positive
/// width; else the verdict that no candidate does.
pub open spec fn is_search_result(
    t: Tables,
    count: int,
    needles: Seq<Needle>,
    c: Candidates,
    r: Result<i32, LayoutError>,
) -> bool {
    match r {
        Ok(shift) => {
            &&& population_fault(t, count, needles) is None
            &&& is_optimal_shift(t, count, needles, c, shift as int)
            &&& spec_min_space(t, count, needles, shift as int) > 0
        },
        Err(e) => match population_fault(t, count, needles) {
            Some(fault) => e == fault,
            None => {
                &&& e == LayoutError::InfeasibleSpacing
                &&& forall|i: int|
                    c.has(i) ==> spec_min_space(t, count, needles, #[trigger] c.at(i)) <= 0
            },
        },
    }
}

/// The narrowest room is the room of one of the needles, and no needle has
/// a narrower one.
pub proof fn lemma_min_space_is_least(t: Tables, count: int, needles: Seq<Needle>, shift: int)
    requires
        needles.len() > 0,
    ensures
        forall|i: int|
            0 <= i < needles.len() ==> spec_min_space(t, count, needles, shift) <= needle_width(
                t,
                count,
                #[trigger] needles[i],
                shift,
            ),
        exists|i: int|
            0 <= i < needles.len() && spec_min_space(t, count, needles, shift) == needle_width(
                t,
                count,
                #[trigger] needles[i],
                shift,
            ),
{
    lemma_least_width_is_least(t, count, needles, shift, needles.len() as int);
}

proof fn lemma_least_width_is_least(
    t: Tables,
    count: int,
    needles: Seq<Needle>,
    shift: int,
    n: int,
)
    requires
        1 <= n <= needles.len(),
    ensures
        forall|i: int|
            0 <= i < n ==> least_width(t, count, needles, shift, n) <= needle_width(
                t,
                count,
                #[trigger] needles[i],
                shift,
            ),
        exists|i: int|
            0 <= i < n && least_width(t, count, needles, shift, n) == needle_width(
                t,
                count,
                #[trigger] needles[i],
                shift,
            ),
    decreases n,
{
    if n > 1 {
        lemma_least_width_is_least(t, count, needles, shift, n - 1);
    }
}

/// A population of one needle has that needle's room as its narrowest.
pub proof fn lemma_min_space_of_one(t: Tables, count: int, needle: Needle, shift: int)
    ensures
        spec_min_space(t, count, seq![needle], shift) == needle_width(t, count, needle, shift),
{
}

/// There is at most one optimal shift.
pub proof fn lemma_optimal_shift_is_unique(
    t: Tables,
    count: int,
    needles: Seq<Needle>,
    c: Candidates,
    a: int,
    b: int,
)
    requires
        is_optimal_shift(t, count, needles, c, a),
        is_optimal_shift(t, count, needles, c, b),
    ensures
        a == b,
{
}

/// A search has one result: two searches over the same tables, window,
/// needles and candidates return the same shift or the same error.
pub proof fn lemma_search_is_deterministic(
    t: Tables,
    count: int,
    needles: Seq<Needle>,
    c: Candidates,
    a: Result<i32, LayoutError>,
    b: Result<i32, LayoutError>,
)
    requires
        is_search_result(t, count, needles, c, a),
        is_search_result(t, count, needles, c, b),
    ensures
        a == b,
{
    match (a, b) {
        (Ok(x), Ok(y)) => {
            lemma_optimal_shift_is_unique(t, count, needles, c, x as int, y as int);
        },
        _ => {},
    }
}

impl Layout {
    /// The scaled width of the narrowest room that any of `needles` has at
    /// `shift`, or the fault of the population.
    pub fn min_space(&self, count: u32, needles: &Vec<Needle>, shift: i32) -> (r: Result<
        i128,
        LayoutError,
    >)
        ensures
            match r {
                Ok(w) => {
                    &&& population_fault(self@, count as int, needles@) is None
                    &&& w == spec_min_space(self@, count as int, needles@, shift as int)
                },
                Err(e) => population_fault(self@, count as int, needles@) == Some(e),
            },
    {
        if count == 0 {
            return Err(LayoutError::InvalidConfiguration);
        }
        if needles.len() == 0 {
            return Err(LayoutError::EmptyPopulation);
        }
        let mut least: i128 = 0;
        let mut i: usize = 0;
        while i < needles.len()
            invariant
                0 <= i <= needles.len(),
                count >= 1,
                forall|k: int| 0 <= k < i ==> can_bear(self@, #[trigger] needles@[k]),
                i > 0 ==> least == least_width(
                    self@,
                    count as int,
                    needles@,
                    shift as int,
                    i as int,
                ),
            decreases needles.len() - i,
        {
            let needle = needles[i];
            let room = match self.needle_space(count, needle.index, needle.y, shift, needle.height) {
                Ok(room) => room,
                Err(e) => {
                    return Err(e);
                },
            };
            let width = room.width();
            if i == 0 || width < least {
                least = width;
            }
            i = i + 1;
        }
        Ok(least)
    }

    /// The lowest candidate of `range` that leaves the narrowest room of any
    /// of `needles` as wide as a candidate can.
    ///
    /// The population's fault comes first. Where every candidate leaves some
    /// needle no room at all, the spacing is infeasible and no shift is
    /// returned.
    pub fn optimal_shift(&self, count: u32, needles: &Vec<Needle>, range: &ShiftRange) -> (r:
        Result<i32, LayoutError>)
        ensures
            is_search_result(self@, count as int, needles@, range@, r),
    {
        let first = range.first();
        let last = range.last();
        let step = range.step();
        let ghost c = range@;
        let mut best_shift: i32 = first;
        let mut best_width: i128 = match self.min_space(count, needles, first) {
            Ok(w) => w,
            Err(e) => {
                return Err(e);
            },
        };
        let ghost mut best: int = 0;
        let ghost mut k: int = 1;
        let mut candidate: i64 = first as i64 + step as i64;
        while candidate <= last as i64
            invariant
                c == range@,
                c.valid(),
                first == c.first,
                last == c.last,
                step == c.step,
                population_fault(self@, count as int, needles@) is None,
                1 <= k,
                0 <= best < k,
                candidate == c.at(k),
                candidate - step <= last,
                c.has(best),
                best_shift == c.at(best),
                best_width == spec_min_space(self@, count as int, needles@, best_shift as int),
                forall|i: int|
                    0 <= i < k ==> spec_min_space(
                        self@,
                        count as int,
                        needles@,
                        #[trigger] c.at(i),
                    ) <= best_width,
                forall|i: int|
                    0 <= i < best ==> spec_min_space(
                        self@,
                        count as int,
                        needles@,
                        #[trigger] c.at(i),
                    ) < best_width,
            decreases last - candidate + step,
        {
            let shift = candidate as i32;
            let width = match self.min_space(count, needles, shift) {
                Ok(w) => w,
                Err(e) => {
                    return Err(e);
                },
            };
            if width > best_width {
                best_shift = shift;
                best_width = width;
                proof {
                    best = k;
                }
            }
            assert(c.at(k + 1) == c.at(k) + c.step) by (nonlinear_arith)
                requires
                    c.at(k + 1) == c.first + (k + 1) * c.step,
                    c.at(k) == c.first + k * c.step,
            ;
            candidate = candidate + step as i64;
            proof {
                k = k + 1;
            }
        }
        proof {
            assert forall|i: int| c.has(i) implies i < k by {
                if i >= k {
                    lemma_product_monotone(k, i, c.step);
                }
            }
            assert(is_best(self@, count as int, needles@, c, best));
        }
        if best_width > 0 {
            Ok(best_shift)
        } else {
            Err(LayoutError::InfeasibleSpacing)
        }
    }
}

} // verus!
