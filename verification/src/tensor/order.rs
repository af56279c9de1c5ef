//! The order of single-precision numbers, read off their bit patterns.

use vstd::prelude::*;

use crate::tensor::dtypes;

verus! {

/// A number that orders bit patterns as the numbers they stand for are ordered; both zeros
/// are equal.  It says nothing of a pattern that is not a number.
pub open spec fn rank(s: u32) -> int {
    if s >= 0x8000_0000 {
        0x8000_0000 - s
    } else {
        s as int
    }
}

/// Whether `a` is greater than `b`; false where either is not a number.
pub open spec fn greater(a: u32, b: u32) -> bool {
    !dtypes::single_is_nan(a) && !dtypes::single_is_nan(b) && rank(a) > rank(b)
}

/// Whether `a` is greater than `b`.
pub fn is_greater(a: u32, b: u32) -> (r: bool)
    ensures
        r == greater(a, b),
{
    if a % 0x8000_0000 > 0x7F80_0000 || b % 0x8000_0000 > 0x7F80_0000 {
        return false;
    }
    let x: i64 = if a >= 0x8000_0000 {
        0x8000_0000 - a as i64
    } else {
        a as i64
    };
    let y: i64 = if b >= 0x8000_0000 {
        0x8000_0000 - b as i64
    } else {
        b as i64
    };
    x > y
}

/// Whether `a` is at most zero; false where it is not a number.
pub fn is_at_most_zero(a: u32) -> (r: bool)
    ensures
        r == (!dtypes::single_is_nan(a) && rank(a) <= 0),
{
    a % 0x8000_0000 <= 0x7F80_0000 && (a == 0 || a >= 0x8000_0000)
}

} // verus!
