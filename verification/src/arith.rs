//! Products of machine integers that are known to fit.

use vstd::prelude::*;

verus! {

/// The product of two 64-bit numbers, which always fits 128 bits.
pub fn mul_wide(a: u64, b: u64) -> (product: u128)
    ensures
        product == a * b,
{
    assert(a * b <= 0xffff_ffff_ffff_ffff * 0xffff_ffff_ffff_ffff) by (nonlinear_arith)
        requires
            0 <= a <= 0xffff_ffff_ffff_ffff,
            0 <= b <= 0xffff_ffff_ffff_ffff,
    ;
    (a as u128) * (b as u128)
}

/// The product of a number below 2^96 and a 32-bit number, which fits 128
/// bits.
pub fn mul_rate(a: u128, b: u32) -> (product: u128)
    requires
        a <= 0xffff_ffff_ffff_ffff_ffff_ffff,
    ensures
        product == a * b,
{
    assert(a * b <= 0xffff_ffff_ffff_ffff_ffff_ffff * 0xffff_ffff) by (nonlinear_arith)
        requires
            0 <= a <= 0xffff_ffff_ffff_ffff_ffff_ffff,
            0 <= b <= 0xffff_ffff,
    ;
    a * (b as u128)
}

} // verus!
