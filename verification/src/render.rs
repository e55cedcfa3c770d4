//! The renderer: drives the coordinate mapper and the escape-time evaluator
//! over every pixel of the output grid, row-major, and writes one intensity
//! per pixel into a drawing surface.
//!
//! Intensity policy ("direct"): the intensity is the iteration count itself,
//! so points inside the set render near-black and fast-diverging points
//! render brighter. The iteration cap never exceeds 256, so the count always
//! fits the intensity byte.

use crate::buffer::{Drawable, ImageBuffer};
use crate::escape::{escape_time, escape_time_spec};
use crate::viewport::{map_im_spec, map_pixel, map_re_spec, ViewportConfig, CENTER_LIM};
use vstd::arithmetic::div_mod::{
    lemma_div_is_ordered, lemma_fundamental_div_mod, lemma_fundamental_div_mod_converse_div,
    lemma_fundamental_div_mod_converse_mod, lemma_multiply_divide_lt,
};
use vstd::arithmetic::mul::lemma_mul_is_commutative;
use vstd::prelude::*;

verus! {

/// Largest supported image width: the derived height then keeps
/// `width * height` within `u32::MAX`, the pixel index range.
pub const WIDTH_MAX: u32 = 86696;

/// The iteration cap every renderer is built with.
pub const MAX_ITER_DEFAULT: u16 = 256;

/// Iteration count of pixel `(x, y)` under `conf`.
pub open spec fn pixel_iters(conf: ViewportConfig, x: int, y: int) -> nat {
    escape_time_spec(map_re_spec(conf, x), map_im_spec(conf, y), conf.max_iter as nat)
}

/// Intensity written for pixel `(x, y)`: the iteration count itself.
pub open spec fn pixel_intensity(conf: ViewportConfig, x: int, y: int) -> u8 {
    pixel_iters(conf, x, y) as u8
}

/// The full frame under `conf`: row-major, one intensity per pixel.
pub open spec fn render_spec(conf: ViewportConfig) -> Seq<u8> {
    Seq::new(
        (conf.w * conf.h) as nat,
        |i: int| pixel_intensity(conf, i % (conf.w as int), i / (conf.w as int)),
    )
}

/// A render task: a validated viewport configuration driving the two pure
/// components (mapper and evaluator) over every pixel.
pub struct Mandelbrot {
    conf: ViewportConfig,
}

impl Mandelbrot {
    /// The configuration this renderer was built with.
    pub closed spec fn config(&self) -> ViewportConfig {
        self.conf
    }

    #[verifier::type_invariant]
    spec fn type_wf(self) -> bool {
        self.conf.wf()
    }

    /// A renderer for a `width x (width / 1.75)` image (height truncated to
    /// an integer) with the default iteration cap. `center_re`, `center_im`
    /// and `zoom` are Q39.24 fixed point; `zoom >= 1` means any positive
    /// magnification down to the whole classical viewport.
    pub fn new(width: u32, center_re: i64, center_im: i64, zoom: i64) -> (m: Mandelbrot)
        requires
            2 <= width <= WIDTH_MAX,
            1 <= zoom,
            -CENTER_LIM <= center_re <= CENTER_LIM,
            -CENTER_LIM <= center_im <= CENTER_LIM,
        ensures
            m.config() == (ViewportConfig {
                max_iter: MAX_ITER_DEFAULT,
                w: width,
                h: (4 * width as int / 7) as u32,
                center_re,
                center_im,
                zoom,
            }),
            m.config().wf(),
    {
        let height = width * 4 / 7;
        proof {
            lemma_div_is_ordered(8, 4 * width as int, 7);
            lemma_div_is_ordered(4 * width as int, 4 * (WIDTH_MAX as int), 7);
            assert((width as int) * (height as int) <= 0xFFFF_FFFF) by (nonlinear_arith)
                requires
                    2 <= (width as int) <= 86696,
                    1 <= (height as int) <= 49540;
        }
        Mandelbrot {
            conf: ViewportConfig {
                max_iter: MAX_ITER_DEFAULT,
                w: width,
                h: height,
                center_re,
                center_im,
                zoom,
            },
        }
    }

    /// Validate a configuration at run time: a renderer comes back exactly
    /// when the arguments are in range, so an unverified caller can reject a
    /// bad configuration before any rendering starts.
    pub fn try_new(width: u32, center_re: i64, center_im: i64, zoom: i64) -> (m: Option<
        Mandelbrot,
    >)
        ensures
            match m {
                Some(made) => {
                    &&& 2 <= width <= WIDTH_MAX
                    &&& 1 <= zoom
                    &&& -CENTER_LIM <= center_re <= CENTER_LIM
                    &&& -CENTER_LIM <= center_im <= CENTER_LIM
                    &&& made.config() == (ViewportConfig {
                        max_iter: MAX_ITER_DEFAULT,
                        w: width,
                        h: (4 * width as int / 7) as u32,
                        center_re,
                        center_im,
                        zoom,
                    })
                    &&& made.config().wf()
                },
                None => !(2 <= width <= WIDTH_MAX && 1 <= zoom && -CENTER_LIM <= center_re
                    <= CENTER_LIM && -CENTER_LIM <= center_im <= CENTER_LIM),
            },
    {
        if 2 <= width && width <= WIDTH_MAX && 1 <= zoom && -CENTER_LIM <= center_re && center_re
            <= CENTER_LIM && -CENTER_LIM <= center_im && center_im <= CENTER_LIM {
            Some(Mandelbrot::new(width, center_re, center_im, zoom))
        } else {
            None
        }
    }

    /// Number of pixel columns of the output image.
    pub fn width(&self) -> (w: u32)
        ensures
            w == self.config().w,
    {
        self.conf.w
    }

    /// Number of pixel rows of the output image.
    pub fn height(&self) -> (h: u32)
        ensures
            h == self.config().h,
    {
        self.conf.h
    }

    /// Map one pixel to the plane and run the escape-time test on it.
    pub fn calc_pixel(&self, x: u32, y: u32) -> (iters: u16)
        requires
            x < self.config().w,
            y < self.config().h,
        ensures
            iters == pixel_iters(self.config(), x as int, y as int),
            iters < self.config().max_iter,
    {
        proof {
            use_type_invariant(self);
        }
        let c = map_pixel(&self.conf, x, y);
        escape_time(c, self.conf.max_iter)
    }

    /// Render every pixel of the configured grid, row-major, into `canvas`.
    pub fn render<D: Drawable>(&self, canvas: &mut D)
        requires
            old(canvas).surface_width() == self.config().w,
            old(canvas).surface_height() == self.config().h,
        ensures
            final(canvas).surface_width() == self.config().w,
            final(canvas).surface_height() == self.config().h,
            forall|x: u32, y: u32|
                x < self.config().w && y < self.config().h ==> #[trigger] final(canvas).cell(x, y)
                    == pixel_intensity(self.config(), x as int, y as int),
    {
        proof {
            use_type_invariant(self);
        }
        let w = self.conf.w;
        let h = self.conf.h;
        let total = w * h;
        let mut i: u32 = 0;
        while i < total
            invariant
                self.config().wf(),
                w == self.config().w,
                h == self.config().h,
                total as int == (w as int) * (h as int),
                i <= total,
                canvas.surface_width() == w,
                canvas.surface_height() == h,
                forall|a: u32, b: u32|
                    a < w && b < h && (b as int) * (w as int) + (a as int) < i as int
                        ==> #[trigger] canvas.cell(a, b) == pixel_intensity(
                        self.config(),
                        a as int,
                        b as int,
                    ),
            decreases total - i,
        {
            let x = i % w;
            let y = i / w;
            proof {
                lemma_multiply_divide_lt(i as int, w as int, h as int);
                lemma_fundamental_div_mod(i as int, w as int);
                lemma_mul_is_commutative(w as int, y as int);
            }
            let v16 = self.calc_pixel(x, y);
            let v = v16 as u8;
            canvas.draw(x, y, v);
            i = i + 1;
            proof {
                assert forall|a: u32, b: u32|
                    a < w && b < h && (b as int) * (w as int) + (a as int) < i as int
                        implies #[trigger] canvas.cell(a, b) == pixel_intensity(
                        self.config(),
                        a as int,
                        b as int,
                    ) by {
                    if (b as int) * (w as int) + (a as int) == i as int - 1 {
                        lemma_fundamental_div_mod_converse_div(
                            i as int - 1,
                            w as int,
                            b as int,
                            a as int,
                        );
                        lemma_fundamental_div_mod_converse_mod(
                            i as int - 1,
                            w as int,
                            b as int,
                            a as int,
                        );
                    }
                }
            }
        }
        proof {
            assert forall|x: u32, y: u32| x < w && y < h implies #[trigger] canvas.cell(x, y)
                == pixel_intensity(self.config(), x as int, y as int) by {
                assert((y as int) * (w as int) + (x as int) < (w as int) * (h as int))
                    by (nonlinear_arith)
                    requires
                        0 <= (x as int) < (w as int),
                        0 <= (y as int) < (h as int);
            }
        }
    }

    /// Render into a fresh in-memory buffer holding exactly the frame
    /// [`render_spec`] describes.
    pub fn render_to_buffer(&self) -> (buf: ImageBuffer)
        ensures
            buf.wf(),
            buf.surface_width() == self.config().w,
            buf.surface_height() == self.config().h,
            buf@ == render_spec(self.config()),
    {
        proof {
            use_type_invariant(self);
        }
        let mut buf = ImageBuffer::new(self.conf.w, self.conf.h);
        self.render(&mut buf);
        proof {
            buf.lemma_wf_from_width();
            buf.lemma_view_len();
            let conf = self.config();
            let w = conf.w as int;
            let h = conf.h as int;
            assert forall|i: int| 0 <= i < w * h implies buf@[i] == render_spec(conf)[i] by {
                let x = i % w;
                let y = i / w;
                vstd::arithmetic::div_mod::lemma_mod_bound(i, w);
                lemma_multiply_divide_lt(i, w, h);
                vstd::arithmetic::div_mod::lemma_div_pos_is_pos(i, w);
                lemma_fundamental_div_mod(i, w);
                lemma_mul_is_commutative(w, y);
                buf.lemma_cell_index(x as u32, y as u32);
            }
            assert(buf@ =~= render_spec(conf));
        }
        buf
    }
}

/// Rendering is deterministic: the frame is a function of the configuration
/// alone, so two renders of one configuration agree byte for byte.
pub proof fn lemma_render_deterministic(conf: ViewportConfig, first: Seq<u8>, second: Seq<u8>)
    requires
        first == render_spec(conf),
        second == render_spec(conf),
    ensures
        first == second,
{
}

} // verus!
