//! Q39.24 fixed-point arithmetic on `i64`.
//!
//! A value `v` stands for the real number `v / FIX_ONE`. Division after a
//! product truncates toward zero, mirroring hardware integer division; the
//! truncating division is modelled by the spec function [`tdiv`], written in
//! terms of Verus's Euclidean `/` on non-negative operands.

use vstd::prelude::*;

verus! {

/// The fixed-point scale: 2^24, the representation of 1.0.
pub const FIX_ONE: i64 = 0x100_0000;

/// Truncating (round-toward-zero) division of `p` by a positive `d`.
pub open spec fn tdiv(p: int, d: int) -> int {
    if p >= 0 {
        p / d
    } else {
        -((-p) / d)
    }
}

/// Truncating division flips sign with its dividend: `tdiv(-p, d) == -tdiv(p, d)`.
pub proof fn lemma_tdiv_neg(p: int, d: int)
    requires
        d > 0,
    ensures
        tdiv(-p, d) == -tdiv(p, d),
{
}

/// A bound on the dividend gives the matching bound on the truncated quotient.
pub proof fn lemma_tdiv_bound(p: int, d: int, b: int)
    requires
        d > 0,
        b >= 0,
        -(b * d) <= p <= b * d,
    ensures
        -b <= tdiv(p, d) <= b,
{
    if p >= 0 {
        vstd::arithmetic::div_mod::lemma_div_is_ordered(p, b * d, d);
        vstd::arithmetic::div_mod::lemma_div_by_multiple(b, d);
        vstd::arithmetic::div_mod::lemma_div_pos_is_pos(p, d);
    } else {
        vstd::arithmetic::div_mod::lemma_div_is_ordered(-p, b * d, d);
        vstd::arithmetic::div_mod::lemma_div_by_multiple(b, d);
        vstd::arithmetic::div_mod::lemma_div_pos_is_pos(-p, d);
    }
}

/// Shrinking the (positive) divisor can only grow the magnitude of the
/// truncated quotient.
pub proof fn lemma_tdiv_denominator_ordered(p: int, d1: int, d2: int)
    requires
        0 < d1 <= d2,
    ensures
        vstd::math::abs(tdiv(p, d2)) <= vstd::math::abs(tdiv(p, d1)),
{
    if p >= 0 {
        vstd::arithmetic::div_mod::lemma_div_is_ordered_by_denominator(p, d1, d2);
        vstd::arithmetic::div_mod::lemma_div_pos_is_pos(p, d1);
        vstd::arithmetic::div_mod::lemma_div_pos_is_pos(p, d2);
    } else {
        vstd::arithmetic::div_mod::lemma_div_is_ordered_by_denominator(-p, d1, d2);
        vstd::arithmetic::div_mod::lemma_div_pos_is_pos(-p, d1);
        vstd::arithmetic::div_mod::lemma_div_pos_is_pos(-p, d2);
    }
}

/// A common positive factor of dividend and divisor cancels out of a
/// truncating division.
pub proof fn lemma_tdiv_cancel(a: int, b: int, c: int)
    requires
        b > 0,
        c > 0,
    ensures
        tdiv(a * c, b * c) == tdiv(a, b),
{
    vstd::arithmetic::mul::lemma_mul_is_commutative(b, c);
    if a >= 0 {
        assert(a * c >= 0) by (nonlinear_arith)
            requires a >= 0, c > 0;
        vstd::arithmetic::div_mod::lemma_div_denominator(a * c, c, b);
        vstd::arithmetic::div_mod::lemma_div_by_multiple(a, c);
    } else {
        assert(a * c < 0 && -(a * c) == (-a) * c) by (nonlinear_arith)
            requires a < 0, c > 0;
        vstd::arithmetic::div_mod::lemma_div_denominator((-a) * c, c, b);
        vstd::arithmetic::div_mod::lemma_div_by_multiple(-a, c);
    }
}

/// Truncating division of an `i128` by a positive divisor, exactly [`tdiv`].
pub fn tdiv_i128(p: i128, d: i128) -> (q: i128)
    requires
        d > 0,
    ensures
        q as int == tdiv(p as int, d as int),
{
    proof {
        if p >= 0 {
            vstd::arithmetic::div_mod::lemma_div_pos_is_pos(p as int, d as int);
            vstd::arithmetic::div_mod::lemma_div_nonincreasing(p as int, d as int);
        } else {
            vstd::arithmetic::div_mod::lemma_div_pos_is_pos(-(p as int), d as int);
            vstd::arithmetic::div_mod::lemma_div_nonincreasing(-(p as int), d as int);
        }
    }
    let r = p.checked_div(d);
    match r {
        Some(q) => q,
        None => {
            proof {
                assert(false);
            }
            0
        },
    }
}

} // verus!
