//! `i128` arithmetic shared by the modules: saturating operations, truncating
//! division and clamping, each stated over mathematical integers.

use vstd::prelude::*;

verus! {

/// Basis-point scale: 10 000 bps is 100 %.
pub const BPS_SCALE: i128 = 10_000;

/// `x` brought into the range of `i128`, as a saturating operation does.
pub open spec fn sat(x: int) -> int {
    if x > i128::MAX {
        i128::MAX as int
    } else if x < i128::MIN {
        i128::MIN as int
    } else {
        x
    }
}

/// `x` lies in the range of `i128`.
pub open spec fn in_i128(x: int) -> bool {
    i128::MIN <= x <= i128::MAX
}

/// Division rounding toward zero, as Rust's integer division does, for a
/// positive divisor.
pub open spec fn trunc_div(x: int, d: int) -> int {
    if x >= 0 {
        x / d
    } else {
        -((-x) / d)
    }
}

/// `x` limited to the closed interval `[lo, hi]` (with `lo <= hi`).
pub open spec fn clamp(x: int, lo: int, hi: int) -> int {
    if x < lo {
        lo
    } else if x > hi {
        hi
    } else {
        x
    }
}

/// `a + b`, saturating at the bounds of `i128`.
pub fn saturating_add(a: i128, b: i128) -> (r: i128)
    ensures
        r == sat(a + b),
{
    match a.checked_add(b) {
        Some(v) => v,
        None => if b > 0 {
            i128::MAX
        } else {
            i128::MIN
        },
    }
}

/// `a - b`, saturating at the bounds of `i128`.
pub fn saturating_sub(a: i128, b: i128) -> (r: i128)
    ensures
        r == sat(a - b),
{
    match a.checked_sub(b) {
        Some(v) => v,
        None => if b < 0 {
            i128::MAX
        } else {
            i128::MIN
        },
    }
}

/// `a * b`, saturating at the bounds of `i128`.
pub fn saturating_mul(a: i128, b: i128) -> (r: i128)
    ensures
        r == sat(a * b),
{
    match a.checked_mul(b) {
        Some(v) => v,
        None => {
            if (a < 0) == (b < 0) {
                assert(a * b >= 0) by (nonlinear_arith)
                    requires
                        (a < 0) == (b < 0),
                ;
                i128::MAX
            } else {
                assert(a * b <= 0) by (nonlinear_arith)
                    requires
                        (a < 0) != (b < 0),
                ;
                i128::MIN
            }
        },
    }
}

/// `x / d` rounded toward zero, for a positive divisor.
pub fn div_toward_zero(x: i128, d: i128) -> (r: i128)
    requires
        d > 0,
    ensures
        r == trunc_div(x as int, d as int),
{
    proof {
        if x >= 0 {
            assert((x as int) / (d as int) <= x as int) by (nonlinear_arith)
                requires
                    x >= 0,
                    d > 0,
            ;
        } else {
            assert((-(x as int)) / (d as int) <= -(x as int)) by (nonlinear_arith)
                requires
                    x < 0,
                    d > 0,
            ;
        }
    }
    match x.checked_div(d) {
        Some(v) => v,
        None => 0,
    }
}

/// `x` limited to `[lo, hi]`.
pub fn clamp_i128(x: i128, lo: i128, hi: i128) -> (r: i128)
    requires
        lo <= hi,
    ensures
        r == clamp(x as int, lo as int, hi as int),
{
    if x < lo {
        lo
    } else if x > hi {
        hi
    } else {
        x
    }
}

} // verus!
