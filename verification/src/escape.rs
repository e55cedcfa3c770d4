//! The escape-time evaluator: how many Mandelbrot iterations a point of the
//! complex plane survives before its magnitude exceeds the escape radius 2.
//!
//! Points are Q39.24 fixed-point pairs ([`ComplexPoint`]). The recurrence is
//! `z := z*z + c` starting from `z = c`; the escape test compares the squared
//! magnitude against `4`, which avoids a square root and is exact in integer
//! arithmetic.
//!
//! Counting convention (kept from the reference behaviour of this library):
//! the reported count is the loop index of the last completed update before
//! the escape check fired. A point that escapes on the very first check
//! reports `0`, a point first seen escaped at check `n >= 1` reports `n - 1`,
//! and a point that never escapes within `max_iter` checks reports
//! `max_iter - 1` (or `0` when `max_iter == 0`).

use crate::fixed::{lemma_tdiv_bound, lemma_tdiv_neg, tdiv, tdiv_i128, FIX_ONE};
use vstd::prelude::*;

verus! {

/// A point of the complex plane, both coordinates in Q39.24 fixed point.
#[derive(Clone, Copy, Debug, PartialEq, Eq, Structural)]
pub struct ComplexPoint {
    pub re: i64,
    pub im: i64,
}

/// Largest coordinate magnitude the evaluator accepts: the orbit components
/// stay within `8 + |c|` (in fixed-point units), so this keeps every update
/// inside `i64`.
pub const COORD_LIM: i64 = i64::MAX - 8 * FIX_ONE;

/// Real part of one Mandelbrot update `z*z + c` in fixed point.
pub open spec fn step_re(zr: int, zi: int, cr: int) -> int {
    tdiv(zr * zr - zi * zi, FIX_ONE as int) + cr
}

/// Imaginary part of one Mandelbrot update `z*z + c` in fixed point.
pub open spec fn step_im(zr: int, zi: int, ci: int) -> int {
    tdiv(2 * zr * zi, FIX_ONE as int) + ci
}

/// The orbit of `c`: `orbit(c, 0) == c` and each further step applies the
/// Mandelbrot update.
pub open spec fn orbit(cr: int, ci: int, n: nat) -> (int, int)
    decreases n,
{
    if n == 0 {
        (cr, ci)
    } else {
        let z = orbit(cr, ci, (n - 1) as nat);
        (step_re(z.0, z.1, cr), step_im(z.0, z.1, ci))
    }
}

/// Whether `z` lies outside the escape radius: `|z| > 2`, compared as
/// squared magnitudes in fixed point (scale `FIX_ONE * FIX_ONE`).
pub open spec fn escaped(zr: int, zi: int) -> bool {
    zr * zr + zi * zi > 4 * (FIX_ONE as int) * (FIX_ONE as int)
}

/// Whether the orbit of `c` is escaped at check `n`.
pub open spec fn escapes_at(cr: int, ci: int, n: nat) -> bool {
    escaped(orbit(cr, ci, n).0, orbit(cr, ci, n).1)
}

/// The first index below `m` at which the orbit of `c` is escaped, if any.
pub open spec fn first_escape_within(cr: int, ci: int, m: nat) -> Option<nat>
    decreases m,
{
    if m == 0 {
        None
    } else {
        match first_escape_within(cr, ci, (m - 1) as nat) {
            Some(k) => Some(k),
            None => if escapes_at(cr, ci, (m - 1) as nat) {
                Some((m - 1) as nat)
            } else {
                None
            },
        }
    }
}

/// The iteration count reported for `c` under this library's counting
/// convention (see the module documentation).
pub open spec fn escape_time_spec(cr: int, ci: int, m: nat) -> nat {
    match first_escape_within(cr, ci, m) {
        Some(n) => if n == 0 {
            0nat
        } else {
            (n - 1) as nat
        },
        None => if m == 0 {
            0nat
        } else {
            (m - 1) as nat
        },
    }
}

proof fn lemma_first_escape_none(cr: int, ci: int, m: nat)
    requires
        forall|k: nat| k < m ==> !(#[trigger] escapes_at(cr, ci, k)),
    ensures
        first_escape_within(cr, ci, m) is None,
    decreases m,
{
    if m > 0 {
        lemma_first_escape_none(cr, ci, (m - 1) as nat);
    }
}

proof fn lemma_first_escape_found(cr: int, ci: int, n: nat, m: nat)
    requires
        n < m,
        forall|k: nat| k < n ==> !(#[trigger] escapes_at(cr, ci, k)),
        escapes_at(cr, ci, n),
    ensures
        first_escape_within(cr, ci, m) == Some(n),
    decreases m,
{
    if m == n + 1 {
        lemma_first_escape_none(cr, ci, n);
    } else {
        lemma_first_escape_found(cr, ci, n, (m - 1) as nat);
    }
}

/// Count how many iterations of `z := z*z + c` run before `|z| > 2`, capped
/// at `max_iter` checks, under this library's counting convention.
pub fn escape_time(c: ComplexPoint, max_iter: u16) -> (count: u16)
    requires
        -COORD_LIM <= c.re <= COORD_LIM,
        -COORD_LIM <= c.im <= COORD_LIM,
    ensures
        count == escape_time_spec(c.re as int, c.im as int, max_iter as nat),
        max_iter == 0 ==> count == 0,
        max_iter > 0 ==> count < max_iter,
{
    let mut zr: i64 = c.re;
    let mut zi: i64 = c.im;
    let mut iter: u16 = 0;
    let mut i: u16 = 0;
    while i < max_iter
        invariant
            i <= max_iter,
            -COORD_LIM <= c.re <= COORD_LIM,
            -COORD_LIM <= c.im <= COORD_LIM,
            zr as int == orbit(c.re as int, c.im as int, i as nat).0,
            zi as int == orbit(c.re as int, c.im as int, i as nat).1,
            forall|k: nat| k < i as nat ==> !(#[trigger] escapes_at(c.re as int, c.im as int, k)),
            iter == if i == 0 { 0u16 } else { (i - 1) as u16 },
            -8 * FIX_ONE - COORD_LIM <= zr <= 8 * FIX_ONE + COORD_LIM,
            -8 * FIX_ONE - COORD_LIM <= zi <= 8 * FIX_ONE + COORD_LIM,
        decreases max_iter - i,
    {
        let zr_w = zr as i128;
        let zi_w = zi as i128;
        let fix_w = FIX_ONE as i128;
        proof {
            assert(zr_w * zr_w <= (i64::MAX as i128) * (i64::MAX as i128) && zr_w * zr_w >= 0)
                by (nonlinear_arith)
                requires -(i64::MAX as i128) <= zr_w <= i64::MAX as i128;
            assert(zi_w * zi_w <= (i64::MAX as i128) * (i64::MAX as i128) && zi_w * zi_w >= 0)
                by (nonlinear_arith)
                requires -(i64::MAX as i128) <= zi_w <= i64::MAX as i128;
        }
        let nr = zr_w * zr_w + zi_w * zi_w;
        if nr > 4 * fix_w * fix_w {
            proof {
                assert(escapes_at(c.re as int, c.im as int, i as nat));
                lemma_first_escape_found(c.re as int, c.im as int, i as nat, max_iter as nat);
            }
            return iter;
        }
        // not escaped: both components are within 2.0, so one more update
        // stays far inside the i64 range
        proof {
            assert(-2 * (FIX_ONE as int) <= zr_w <= 2 * (FIX_ONE as int) && -2 * (FIX_ONE as int)
                <= zi_w <= 2 * (FIX_ONE as int)) by (nonlinear_arith)
                requires
                    zr_w * zr_w + zi_w * zi_w <= 4 * (FIX_ONE as int) * (FIX_ONE as int),
                    zr_w * zr_w >= 0,
                    zi_w * zi_w >= 0;
            assert(zr_w * zr_w <= 4 * (FIX_ONE as int) * (FIX_ONE as int)) by (nonlinear_arith)
                requires zr_w * zr_w + zi_w * zi_w <= 4 * (FIX_ONE as int) * (FIX_ONE as int), zi_w * zi_w >= 0;
            assert(zi_w * zi_w <= 4 * (FIX_ONE as int) * (FIX_ONE as int)) by (nonlinear_arith)
                requires zr_w * zr_w + zi_w * zi_w <= 4 * (FIX_ONE as int) * (FIX_ONE as int), zr_w * zr_w >= 0;
            assert(-(4 * (FIX_ONE as int) * (FIX_ONE as int)) <= zr_w * zi_w <= 4 * (FIX_ONE
                as int) * (FIX_ONE as int)) by (nonlinear_arith)
                requires
                    -2 * (FIX_ONE as int) <= zr_w <= 2 * (FIX_ONE as int),
                    -2 * (FIX_ONE as int) <= zi_w <= 2 * (FIX_ONE as int);
            assert(2 * (zr_w * zi_w) == 2 * zr_w * zi_w) by (nonlinear_arith);
        }
        let dr = zr_w * zr_w - zi_w * zi_w;
        let tr = tdiv_i128(dr, fix_w);
        proof {
            lemma_tdiv_bound(dr as int, FIX_ONE as int, 4 * (FIX_ONE as int));
        }
        let zr_next = tr + c.re as i128;
        let pr = 2 * (zr_w * zi_w);
        let ti = tdiv_i128(pr, fix_w);
        proof {
            lemma_tdiv_bound(pr as int, FIX_ONE as int, 8 * (FIX_ONE as int));
        }
        let zi_next = ti + c.im as i128;
        proof {
            assert(orbit(c.re as int, c.im as int, (i + 1) as nat) == (
                step_re(zr as int, zi as int, c.re as int),
                step_im(zr as int, zi as int, c.im as int),
            ));
        }
        zr = zr_next as i64;
        zi = zi_next as i64;
        iter = i;
        i = i + 1;
    }
    proof {
        lemma_first_escape_none(c.re as int, c.im as int, max_iter as nat);
    }
    iter
}

proof fn lemma_orbit_conjugate(cr: int, ci: int, n: nat)
    ensures
        orbit(cr, -ci, n).0 == orbit(cr, ci, n).0,
        orbit(cr, -ci, n).1 == -orbit(cr, ci, n).1,
    decreases n,
{
    if n > 0 {
        lemma_orbit_conjugate(cr, ci, (n - 1) as nat);
        let z = orbit(cr, ci, (n - 1) as nat);
        assert((-z.1) * (-z.1) == z.1 * z.1) by (nonlinear_arith);
        assert(2 * z.0 * (-z.1) == -(2 * z.0 * z.1)) by (nonlinear_arith);
        lemma_tdiv_neg(2 * z.0 * z.1, FIX_ONE as int);
    }
}

proof fn lemma_escapes_at_symmetric(cr: int, ci: int, n: nat)
    ensures
        escapes_at(cr, -ci, n) == escapes_at(cr, ci, n),
{
    lemma_orbit_conjugate(cr, ci, n);
    let z = orbit(cr, ci, n);
    assert((-z.1) * (-z.1) == z.1 * z.1) by (nonlinear_arith);
}

proof fn lemma_first_escape_symmetric(cr: int, ci: int, m: nat)
    ensures
        first_escape_within(cr, -ci, m) == first_escape_within(cr, ci, m),
    decreases m,
{
    if m > 0 {
        lemma_first_escape_symmetric(cr, ci, (m - 1) as nat);
        lemma_escapes_at_symmetric(cr, ci, (m - 1) as nat);
    }
}

/// The Mandelbrot set is symmetric about the real axis: conjugating `c`
/// leaves the escape time unchanged, for every point and every cap.
pub proof fn lemma_escape_time_symmetric(cr: int, ci: int, m: nat)
    ensures
        escape_time_spec(cr, ci, m) == escape_time_spec(cr, -ci, m),
{
    lemma_first_escape_symmetric(cr, ci, m);
}

} // verus!
