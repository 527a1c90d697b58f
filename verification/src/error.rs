use vstd::prelude::*;

verus! {

/// Why a computation on a layout could not give a result.
#[derive(Debug, Clone, Copy, PartialEq, Eq, Structural)]
pub enum LayoutError {
    /// The tables, the window size, the candidate range or the layering
    /// describe nothing that a layout can be computed from.
    InvalidConfiguration,
    /// A slot, or a neighbour inside its window, has no entry in the position tables.
    InvalidIndex,
    /// The needles would overlap: an interval has its right end left of its
    /// left end, or no candidate shift leaves every needle a positive width.
    InfeasibleSpacing,
    /// There are no needles, so there is no narrowest one.
    EmptyPopulation,
}

} // verus!
