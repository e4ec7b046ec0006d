//! Fixed-point arithmetic in millionths.
//!
//! Every rating, probability and multiplier in this crate is an unsigned
//! fixed-point number scaled by [`SCALE`]: the integer `1_000_000` stands for
//! the real number `1.0`.  Multiplying two such numbers therefore divides the
//! raw product by `SCALE`, rounding toward zero.

use vstd::prelude::*;

verus! {

/// The fixed-point unit: this integer stands for the real number `1.0`.
pub const SCALE: u64 = 1_000_000;

/// Largest operand [`fp_mul`] accepts; generous enough for every value the
/// simulation produces (ratings stay below `151 * SCALE`).
pub const FP_OPERAND_CAP: u64 = 4_000_000_000;

/// The mathematical meaning of a fixed-point product: `a * b / SCALE`,
/// rounded toward zero.
pub open spec fn fp_mul_spec(a: int, b: int) -> int {
    a * b / (SCALE as int)
}

/// Product of two nonnegative quantities is bounded by the product of their
/// bounds.
pub proof fn lemma_mul_le(a: int, b: int, ca: int, cb: int)
    requires
        0 <= a <= ca,
        0 <= b <= cb,
    ensures
        a * b <= ca * cb,
{
    assert(a * b <= ca * cb) by (nonlinear_arith)
        requires
            0 <= a <= ca,
            0 <= b <= cb,
    ;
}

/// Floor division is monotone in the dividend.
pub proof fn lemma_div_le(x: int, y: int, d: int)
    requires
        0 <= x <= y,
        0 < d,
    ensures
        x / d <= y / d,
{
    assert(x / d <= y / d) by (nonlinear_arith)
        requires
            0 <= x <= y,
            0 < d,
    ;
}

/// A fixed-point product of bounded factors is bounded by the fixed-point
/// product of the bounds.
pub proof fn lemma_fp_mul_le(a: int, b: int, ca: int, cb: int)
    requires
        0 <= a <= ca,
        0 <= b <= cb,
    ensures
        fp_mul_spec(a, b) <= fp_mul_spec(ca, cb),
{
    lemma_mul_le(a, b, ca, cb);
    lemma_div_le(a * b, ca * cb, SCALE as int);
}

/// The weighted-average cap: if a weighted total never exceeds `cap` per
/// unit of weight, the fixed-point average is at most `cap * SCALE`.
pub proof fn lemma_ratio_cap(total: int, weight: int, cap: int)
    requires
        0 <= total,
        0 < weight,
        0 <= cap,
        total <= cap * weight,
    ensures
        total * (SCALE as int) / weight <= cap * (SCALE as int),
{
    assert(total * (SCALE as int) / weight <= cap * (SCALE as int)) by (nonlinear_arith)
        requires
            0 <= total,
            0 < weight,
            0 <= cap,
            total <= cap * weight,
    ;
}

/// Fixed-point multiplication: `a` and `b` are millionths, the result is
/// `a * b / SCALE` in millionths, rounded toward zero.
pub fn fp_mul(a: u64, b: u64) -> (r: u64)
    requires
        a <= FP_OPERAND_CAP,
        b <= FP_OPERAND_CAP,
    ensures
        r == fp_mul_spec(a as int, b as int),
{
    proof {
        lemma_mul_le(a as int, b as int, FP_OPERAND_CAP as int, FP_OPERAND_CAP as int);
    }
    (a * b) / SCALE
}

} // verus!
