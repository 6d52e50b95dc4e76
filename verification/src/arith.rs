//! Saturating arithmetic that the rest of the crate shares.
use vstd::prelude::*;

verus! {

/// `a * b`, or `u64::MAX` where the product does not fit.
pub open spec fn saturating_mul_spec(a: u64, b: u64) -> u64 {
    if a * b > u64::MAX {
        u64::MAX
    } else {
        (a * b) as u64
    }
}

/// Multiplication that saturates at `u64::MAX` instead of overflowing.
pub fn saturating_mul_u64(a: u64, b: u64) -> (r: u64)
    ensures
        r == saturating_mul_spec(a, b),
{
    match a.checked_mul(b) {
        Some(p) => p,
        None => u64::MAX,
    }
}

/// `a - b` clamped to the range of `i64`.
pub open spec fn saturating_sub_i64_spec(a: i64, b: i64) -> i64 {
    if a - b > i64::MAX {
        i64::MAX
    } else if a - b < i64::MIN {
        i64::MIN
    } else {
        (a - b) as i64
    }
}

/// Subtraction that saturates at the bounds of `i64` instead of overflowing.
pub fn saturating_sub_i64(a: i64, b: i64) -> (r: i64)
    ensures
        r == saturating_sub_i64_spec(a, b),
{
    match a.checked_sub(b) {
        Some(d) => d,
        None => if b > 0 {
            i64::MIN
        } else {
            i64::MAX
        },
    }
}

} // verus!
