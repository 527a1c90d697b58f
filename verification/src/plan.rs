use vstd::prelude::*;
use crate::error::LayoutError;
use crate::layout::{Layout, Tables};
use crate::needles::{build_needles, spec_build_needles, Layering, Needle};
use crate::optimize::{
    is_search_result,
    lemma_min_space_is_least,
    needle_width,
    population_fault,
    spec_min_space,
    Candidates,
    ShiftRange,
};
use crate::outline::{is_outline, needle_fault, Outline, Tool};

verus! {

/// A finished layout: the shift between repetitions of the template, the
/// needles, and for each needle the path of the beam around it.
pub struct Plan {
    pub shift: i32,
    pub needles: Vec<Needle>,
    pub outlines: Vec<Outline>,
}

/// Why no plan can be made, if that is so: an unsound layering, or else the
/// error of the search over the population that the layering describes.
pub open spec fn plan_fault(
    t: Tables,
    count: int,
    layering: Layering,
    c: Candidates,
    e: LayoutError,
) -> bool {
    if !layering.is_sound() {
        e == LayoutError::InvalidConfiguration
    } else {
        is_search_result(t, count, spec_build_needles(layering), c, Err(e))
    }
}

/// At a shift that leaves the narrowest room a positive width, every needle
/// can be drawn.
pub proof fn lemma_positive_min_space_has_no_fault(
    t: Tables,
    count: int,
    needles: Seq<Needle>,
    shift: int,
    i: int,
)
    requires
        population_fault(t, count, needles) is None,
        spec_min_space(t, count, needles, shift) > 0,
        0 <= i < needles.len(),
    ensures
        needle_fault(t, count, needles[i], shift) is None,
        needle_width(t, count, needles[i], shift) > 0,
{
    lemma_min_space_is_least(t, count, needles, shift);
}

/// Lays out the needles of `layering`, finds the optimal shift for them
/// among the candidates of `range`, and outlines every needle at that
/// shift.
pub fn plan(layout: &Layout, count: u32, layering: &Layering, range: &ShiftRange, tool: &Tool) -> (r:
    Result<Plan, LayoutError>)
    ensures
        match r {
            Ok(plan) => {
                &&& layering.is_sound()
                &&& plan.needles@ == spec_build_needles(*layering)
                &&& is_search_result(
                    layout@,
                    count as int,
                    plan.needles@,
                    range@,
                    Ok(plan.shift),
                )
                &&& plan.outlines@.len() == plan.needles@.len()
                &&& forall|i: int|
                    0 <= i < plan.needles@.len() ==> is_outline(
                        layout@,
                        count as int,
                        plan.needles@[i],
                        plan.shift as int,
                        *tool,
                        #[trigger] plan.outlines@[i],
                    )
            },
            Err(e) => plan_fault(layout@, count as int, *layering, range@, e),
        },
{
    let needles = match build_needles(layering) {
        Ok(needles) => needles,
        Err(e) => {
            return Err(e);
        },
    };
    let shift = match layout.optimal_shift(count, &needles, range) {
        Ok(shift) => shift,
        Err(e) => {
            return Err(e);
        },
    };
    let mut outlines: Vec<Outline> = Vec::new();
    let mut i: usize = 0;
    while i < needles.len()
        invariant
            0 <= i <= needles@.len(),
            population_fault(layout@, count as int, needles@) is None,
            spec_min_space(layout@, count as int, needles@, shift as int) > 0,
            outlines@.len() == i,
            forall|k: int|
                0 <= k < i ==> is_outline(
                    layout@,
                    count as int,
                    needles@[k],
                    shift as int,
                    *tool,
                    #[trigger] outlines@[k],
                ),
        decreases needles@.len() - i,
    {
        proof {
            lemma_positive_min_space_has_no_fault(
                layout@,
                count as int,
                needles@,
                shift as int,
                i as int,
            );
        }
        let outline = match layout.needle_outline(count, &needles[i], shift, tool) {
            Ok(outline) => outline,
            Err(e) => {
                return Err(e);
            },
        };
        outlines.push(outline);
        i = i + 1;
    }
    Ok(Plan { shift, needles, outlines })
}

} // verus!
