//! Fixed-point numbers and arithmetic that rounds toward zero and stops at
//! the ends of the number range.
use vstd::prelude::*;

verus! {

/// Fixed-point scale: the integer that stands for the number one.
pub const UNIT: i64 = 1_000_000;

/// Quotient of `a` by a positive `b`, rounded toward zero.
pub open spec fn trunc_div(a: int, b: int) -> int {
    if a >= 0 {
        a / b
    } else {
        -((-a) / b)
    }
}

/// The numbers of a sequence of machine integers.
pub open spec fn ints(s: Seq<i64>) -> Seq<int> {
    Seq::new(s.len(), |i: int| s[i] as int)
}

/// Divides rounding toward zero.
pub fn div_toward_zero(a: i64, b: i64) -> (q: i64)
    requires
        b > 0,
    ensures
        q == trunc_div(a as int, b as int),
{
    a / b
}

/// The nearest number to `x` that an `i32` can hold.
pub open spec fn clamp_i32(x: int) -> int {
    if x < i32::MIN {
        i32::MIN as int
    } else if x > i32::MAX {
        i32::MAX as int
    } else {
        x
    }
}

/// Adds, stopping at the ends of the `i32` range.
pub fn add_clamped(a: i32, b: i32) -> (sum: i32)
    ensures
        sum == clamp_i32(a + b),
{
    let wide: i64 = a as i64 + b as i64;
    if wide < i32::MIN as i64 {
        i32::MIN
    } else if wide > i32::MAX as i64 {
        i32::MAX
    } else {
        wide as i32
    }
}

/// Quotient of `a` by `b`, which is not zero, rounded toward zero.
pub open spec fn quotient(a: int, b: int) -> int {
    if b > 0 {
        trunc_div(a, b)
    } else {
        trunc_div(-a, -b)
    }
}

/// Divides rounding toward zero and brings the quotient into the `i32` range.
pub fn quotient_clamped(a: i128, b: i128) -> (q: i32)
    requires
        b != 0,
        a > i128::MIN,
        b > i128::MIN,
    ensures
        q == clamp_i32(quotient(a as int, b as int)),
{
    let wide: i128 = if b > 0 {
        a / b
    } else {
        (-a) / (-b)
    };
    if wide < i32::MIN as i128 {
        i32::MIN
    } else if wide > i32::MAX as i128 {
        i32::MAX
    } else {
        wide as i32
    }
}

} // verus!
