//! Reduction of mathematical integers to 32-bit two's-complement values.

use vstd::prelude::*;

verus! {

/// Whether `x` can be held in an `i32` as it is.
pub open spec fn fits_i32(x: int) -> bool {
    i32::MIN <= x <= i32::MAX
}

/// The one value in the range of `i32` that differs from `x` by a multiple of
/// 2^32: what 32-bit two's-complement arithmetic makes of `x`.
pub open spec fn wrap_i32(x: int) -> int {
    let low = x % 0x1_0000_0000;
    if low > i32::MAX {
        low - 0x1_0000_0000
    } else {
        low
    }
}

/// Reduces a wide integer to 32 bits.
pub fn reduce(x: i128) -> (r: i32)
    ensures
        r == wrap_i32(x as int),
{
    let modulus: i128 = 0x1_0000_0000;
    let low: i128 = if x >= 0 {
        x % modulus
    } else {
        modulus - 1 - (-(x + 1)) % modulus
    };
    if low > 0x7fff_ffff {
        (low - modulus) as i32
    } else {
        low as i32
    }
}

} // verus!
