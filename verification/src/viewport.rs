//! The coordinate mapper: pixel positions to points of the complex plane.
//!
//! At `zoom == 1` the classical viewport spans reals `[-2.5, 1.0]` scaled by
//! the centring offsets below, i.e. a span of 3.5 across the width and 2.0
//! across the height, recentred so that the configured centre is the logical
//! midpoint. A pixel's deviation from the centre along one axis is the exact
//! rational
//!
//! ```text
//! (p * span - extent * off) / (extent * zoom)
//! ```
//!
//! (all values in Q39.24 fixed point), which the mapper evaluates with a
//! single truncating division, then offsets by the centre.

use crate::escape::{ComplexPoint, COORD_LIM};
use crate::fixed::{
    lemma_tdiv_bound, lemma_tdiv_cancel, lemma_tdiv_denominator_ordered, tdiv, tdiv_i128, FIX_ONE,
};
use vstd::math::abs;
use vstd::prelude::*;

verus! {

/// Width of the viewport along the real axis at `zoom == 1`: 3.5 (`3.5 * FIX_ONE`).
pub const SPAN_RE: i64 = 0x380_0000;

/// Centring offset along the real axis: 1.75 (`1.75 * FIX_ONE`).
pub const OFFSET_RE: i64 = 0x1C0_0000;

/// Height of the viewport along the imaginary axis at `zoom == 1`: 2.0 (`2 * FIX_ONE`).
pub const SPAN_IM: i64 = 0x200_0000;

/// Centring offset along the imaginary axis: 1.0.
pub const OFFSET_IM: i64 = FIX_ONE;

/// Largest centre-coordinate magnitude a well-formed viewport allows
/// (2^32 in real-number terms; the set itself lives within magnitude 2).
/// Keeps every mapped point within [`COORD_LIM`].
pub const CENTER_LIM: i64 = 0x100_0000_0000_0000;

/// An immutable render configuration: iteration cap, output dimensions,
/// centre of the visible plane and magnification, the last three in Q39.24
/// fixed point.
#[derive(Clone, Copy, Debug, PartialEq, Eq, Structural)]
pub struct ViewportConfig {
    pub max_iter: u16,
    pub w: u32,
    pub h: u32,
    pub center_re: i64,
    pub center_im: i64,
    pub zoom: i64,
}

impl ViewportConfig {
    /// Validity: positive dimensions whose product fits the pixel index
    /// range, a positive iteration cap no larger than an intensity byte can
    /// tell apart, positive zoom, and a centre within [`CENTER_LIM`].
    pub open spec fn wf(self) -> bool {
        &&& 1 <= self.max_iter <= 256
        &&& 1 <= self.w
        &&& 1 <= self.h
        &&& self.w * self.h <= u32::MAX
        &&& 1 <= self.zoom
        &&& -CENTER_LIM <= self.center_re <= CENTER_LIM
        &&& -CENTER_LIM <= self.center_im <= CENTER_LIM
    }
}

/// Numerator of the exact deviation of pixel coordinate `p` from the centre
/// along one axis; the matching denominator is `extent * zoom`.
pub open spec fn dev_num(p: int, extent: int, span: int, off: int) -> int {
    p * span - extent * off
}

/// The computed deviation: the exact rational brought to fixed-point scale
/// and truncated once toward zero.
pub open spec fn axis_dev(p: int, extent: int, span: int, off: int, zoom: int) -> int {
    tdiv(dev_num(p, extent, span, off) * (FIX_ONE as int), extent * zoom)
}

/// Real coordinate of the mapped point for pixel column `x`.
pub open spec fn map_re_spec(conf: ViewportConfig, x: int) -> int {
    axis_dev(x, conf.w as int, SPAN_RE as int, OFFSET_RE as int, conf.zoom as int)
        + conf.center_re
}

/// Imaginary coordinate of the mapped point for pixel row `y`.
pub open spec fn map_im_spec(conf: ViewportConfig, y: int) -> int {
    axis_dev(y, conf.h as int, SPAN_IM as int, OFFSET_IM as int, conf.zoom as int)
        + conf.center_im
}

/// One axis of the mapper. The deviation magnitude never exceeds
/// `(span + off) / zoom <= 6.0`, i.e. `6 * FIX_ONE * FIX_ONE` before scaling
/// down.
fn axis_dev_exec(p: u32, extent: u32, span: i64, off: i64, zoom: i64) -> (d: i64)
    requires
        1 <= extent,
        p < extent,
        1 <= zoom,
        0 <= span <= 4 * FIX_ONE,
        0 <= off <= 2 * FIX_ONE,
    ensures
        d as int == axis_dev(p as int, extent as int, span as int, off as int, zoom as int),
        -6 * (FIX_ONE as int) * (FIX_ONE as int) <= d as int
            <= 6 * (FIX_ONE as int) * (FIX_ONE as int),
{
    proof {
        assert(-((extent as int) * (6 * FIX_ONE as int)) <= (p as int) * (span as int) - (extent
            as int) * (off as int) <= (extent as int) * (6 * FIX_ONE as int)) by (nonlinear_arith)
            requires
                0 <= p as int <= extent as int,
                1 <= extent as int,
                0 <= span as int <= 4 * FIX_ONE as int,
                0 <= off as int <= 2 * FIX_ONE as int;
        assert(0 <= (p as int) * (span as int) <= (0x1_0000_0000 as int) * (4 * FIX_ONE as int)
            && 0 <= (extent as int) * (off as int) <= (0x1_0000_0000 as int) * (2 * FIX_ONE
            as int)) by (nonlinear_arith)
            requires
                0 <= (p as int) < 0x1_0000_0000,
                1 <= extent as int <= 0xFFFF_FFFF,
                0 <= span as int <= 4 * FIX_ONE as int,
                0 <= off as int <= 2 * FIX_ONE as int;
    }
    let num = (p as i128) * (span as i128) - (extent as i128) * (off as i128);
    let scaled = num * (FIX_ONE as i128);
    proof {
        assert(0 < (extent as int) * (zoom as int) && -((6 * (FIX_ONE as int) * (FIX_ONE as int))
            * ((extent as int) * (zoom as int))) <= (num as int) * (FIX_ONE as int) <= (6 * (
        FIX_ONE as int) * (FIX_ONE as int)) * ((extent as int) * (zoom as int)))
            by (nonlinear_arith)
            requires
                1 <= extent as int,
                1 <= zoom as int,
                -((extent as int) * (6 * FIX_ONE as int)) <= num as int <= (extent as int) * (6
                    * FIX_ONE as int),
                FIX_ONE == 0x100_0000;
        assert((extent as int) * (zoom as int) <= (0xFFFF_FFFF as int) * (i64::MAX as int))
            by (nonlinear_arith)
            requires
                1 <= extent as int <= 0xFFFF_FFFF,
                1 <= zoom as int <= i64::MAX as int;
    }
    let den = (extent as i128) * (zoom as i128);
    let q = tdiv_i128(scaled, den);
    proof {
        lemma_tdiv_bound(
            scaled as int,
            den as int,
            6 * (FIX_ONE as int) * (FIX_ONE as int),
        );
    }
    q as i64
}

/// Map a pixel position to its point of the complex plane under `conf`.
pub fn map_pixel(conf: &ViewportConfig, x: u32, y: u32) -> (c: ComplexPoint)
    requires
        conf.wf(),
        x < conf.w,
        y < conf.h,
    ensures
        c.re as int == map_re_spec(*conf, x as int),
        c.im as int == map_im_spec(*conf, y as int),
        -COORD_LIM <= c.re <= COORD_LIM,
        -COORD_LIM <= c.im <= COORD_LIM,
{
    let dr = axis_dev_exec(x, conf.w, SPAN_RE, OFFSET_RE, conf.zoom);
    let di = axis_dev_exec(y, conf.h, SPAN_IM, OFFSET_IM, conf.zoom);
    ComplexPoint { re: dr + conf.center_re, im: di + conf.center_im }
}

/// At `zoom == 1` with the centre at the origin, the mapper reproduces the
/// documented corner bounds of the classical viewport: pixel `(0, 0)` maps
/// to exactly `(-1.75, -1.0)`, and pixel `(w-1, h-1)` to
/// `(1.75 - 3.5/w, 1.0 - 2.0/h)`, each coordinate truncated once.
pub proof fn lemma_map_corners(conf: ViewportConfig)
    requires
        conf.wf(),
        conf.zoom == FIX_ONE,
        conf.center_re == 0,
        conf.center_im == 0,
    ensures
        map_re_spec(conf, 0) == -OFFSET_RE,
        map_im_spec(conf, 0) == -OFFSET_IM,
        map_re_spec(conf, conf.w as int - 1) == tdiv(
            conf.w as int * OFFSET_RE - SPAN_RE,
            conf.w as int,
        ),
        map_im_spec(conf, conf.h as int - 1) == tdiv(
            conf.h as int * OFFSET_IM - SPAN_IM,
            conf.h as int,
        ),
{
    let we = conf.w as int;
    let he = conf.h as int;
    lemma_tdiv_cancel(dev_num(0, we, SPAN_RE as int, OFFSET_RE as int), we, FIX_ONE as int);
    lemma_tdiv_cancel(dev_num(0, he, SPAN_IM as int, OFFSET_IM as int), he, FIX_ONE as int);
    lemma_tdiv_cancel(dev_num(we - 1, we, SPAN_RE as int, OFFSET_RE as int), we, FIX_ONE as int);
    lemma_tdiv_cancel(dev_num(he - 1, he, SPAN_IM as int, OFFSET_IM as int), he, FIX_ONE as int);
    lemma_axis_corners(we, SPAN_RE as int, OFFSET_RE as int);
    lemma_axis_corners(he, SPAN_IM as int, OFFSET_IM as int);
}

/// The two corner values of one axis at `zoom == 1`: pixel 0 deviates by
/// exactly `-off`, and the numerator at the far edge is `extent*off - span`
/// (the span being twice the offset on both axes).
proof fn lemma_axis_corners(e: int, s: int, o: int)
    requires
        e >= 1,
        o >= 1,
        s == 2 * o,
    ensures
        tdiv(dev_num(0, e, s, o), e) == -o,
        dev_num(e - 1, e, s, o) == e * o - s,
{
    assert(dev_num(0, e, s, o) == -(e * o) && e * o >= 1 && dev_num(e - 1, e, s, o) == e * o
        - s) by (nonlinear_arith)
        requires
            e >= 1,
            o >= 1,
            s == 2 * o;
    vstd::arithmetic::div_mod::lemma_div_multiples_vanish(o, e);
}

/// The mapper is affine in the pixel coordinate: each pixel step moves the
/// exact deviation numerator by exactly the span (the denominator
/// `extent * zoom` does not depend on the pixel).
pub proof fn lemma_dev_num_affine(p: int, extent: int, span: int, off: int)
    ensures
        dev_num(p + 1, extent, span, off) - dev_num(p, extent, span, off) == span,
{
    assert((p + 1) * span - p * span == span) by (nonlinear_arith);
}

/// Zoom law over the exact rationals: for a fixed pixel and centre, a
/// strictly larger zoom strictly shrinks the magnitude of the deviation of
/// the mapped point from the centre. `|n/(e*z2)| < |n/(e*z1)|` is compared
/// by cross-multiplying the positive denominators. The law needs the
/// deviation to be nonzero: a pixel sitting exactly on the centre stays
/// there at every zoom.
pub proof fn lemma_zoom_strictly_shrinks_exact(
    p: int,
    extent: int,
    span: int,
    off: int,
    z1: int,
    z2: int,
)
    requires
        1 <= extent,
        0 < z1 < z2,
        dev_num(p, extent, span, off) != 0,
    ensures
        abs(dev_num(p, extent, span, off)) * (extent * z1)
            < abs(dev_num(p, extent, span, off)) * (extent * z2),
{
    let n = abs(dev_num(p, extent, span, off)) as int;
    assert(n * (extent * z1) < n * (extent * z2)) by (nonlinear_arith)
        requires
            n >= 1,
            1 <= extent,
            0 < z1 < z2;
}

/// Zoom law over the computed values: the fixed-point deviation the mapper
/// returns cannot grow in magnitude when zoom grows. (Truncation can leave
/// two zooms with equal outputs, so only the exact rational law above is
/// strict.)
pub proof fn lemma_zoom_shrinks_computed(
    p: int,
    extent: int,
    span: int,
    off: int,
    z1: int,
    z2: int,
)
    requires
        1 <= extent,
        1 <= z1 <= z2,
    ensures
        abs(axis_dev(p, extent, span, off, z2)) <= abs(axis_dev(p, extent, span, off, z1)),
{
    assert(0 < extent * z1 && extent * z1 <= extent * z2) by (nonlinear_arith)
        requires
            1 <= extent,
            1 <= z1 <= z2;
    lemma_tdiv_denominator_ordered(
        dev_num(p, extent, span, off) * (FIX_ONE as int),
        extent * z1,
        extent * z2,
    );
}

} // verus!
