use vstd::prelude::*;

verus! {

/// `v` is a value of a 32-bit signed integer.
pub open spec fn fits_i32(v: int) -> bool {
    -0x8000_0000 <= v <= 0x7fff_ffff
}

/// `v` is a value of a 64-bit signed integer.
pub open spec fn fits_i64(v: int) -> bool {
    -0x8000_0000_0000_0000 <= v <= 0x7fff_ffff_ffff_ffff
}

/// No scaled position that this crate computes lies further from zero: 2^97.
pub open spec fn scaled_limit() -> int {
    0x2_0000_0000_0000_0000_0000_0000
}

/// `v` lies within [`scaled_limit`] of zero.
pub open spec fn fits_scaled(v: int) -> bool {
    -scaled_limit() <= v <= scaled_limit()
}

/// A product is no further from zero than the product of its factors' bounds.
pub proof fn lemma_product_bound(a: int, b: int, bound_a: int, bound_b: int)
    by (nonlinear_arith)
    requires
        -bound_a <= a <= bound_a,
        -bound_b <= b <= bound_b,
    ensures
        -(bound_a * bound_b) <= a * b <= bound_a * bound_b,
{
}

/// Multiplying by a factor that is not negative keeps the order.
pub proof fn lemma_product_monotone(a: int, b: int, factor: int)
    by (nonlinear_arith)
    requires
        a <= b,
        0 <= factor,
    ensures
        a * factor <= b * factor,
{
}

/// The exact product of two 64-bit integers.
pub(crate) fn wide_product(a: i64, b: i64) -> (p: i128)
    ensures
        p == a * b,
{
    proof {
        lemma_product_bound(a as int, b as int, 0x8000_0000_0000_0000, 0x8000_0000_0000_0000);
    }
    (a as i128) * (b as i128)
}

} // verus!
