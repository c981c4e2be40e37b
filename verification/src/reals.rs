use vstd::prelude::*;

verus! {

/// The bits of an `f64` that is NaN: every exponent bit set and a
/// non-zero fraction.
pub open spec fn is_nan_bits(b: u64) -> bool {
    b & 0x7FF0_0000_0000_0000u64 == 0x7FF0_0000_0000_0000u64 && b & 0x000F_FFFF_FFFF_FFFFu64 != 0
}

/// `==` on the `f64` values whose bits are `a` and `b`: false when either is
/// NaN, true for the two zeros, and otherwise true exactly when the bits
/// agree.
pub open spec fn real_eq(a: u64, b: u64) -> bool {
    &&& !is_nan_bits(a)
    &&& !is_nan_bits(b)
    &&& (a == b || (a & 0x7FFF_FFFF_FFFF_FFFFu64 == 0 && b & 0x7FFF_FFFF_FFFF_FFFFu64 == 0))
}

/// Compares the `f64` values whose bits are `a` and `b` as `f64` `==` does.
pub fn reals_equal(a: u64, b: u64) -> (r: bool)
    ensures
        r == real_eq(a, b),
{
    let a_nan = a & 0x7FF0_0000_0000_0000u64 == 0x7FF0_0000_0000_0000u64 && a & 0x000F_FFFF_FFFF_FFFFu64 != 0;
    let b_nan = b & 0x7FF0_0000_0000_0000u64 == 0x7FF0_0000_0000_0000u64 && b & 0x000F_FFFF_FFFF_FFFFu64 != 0;
    !a_nan && !b_nan && (a == b || (a & 0x7FFF_FFFF_FFFF_FFFFu64 == 0 && b & 0x7FFF_FFFF_FFFF_FFFFu64 == 0))
}

} // verus!
