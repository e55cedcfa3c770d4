//! Drawing surfaces: the capability to place one intensity per pixel
//! position, and the in-memory row-major grayscale grid that implements it.

use vstd::pervasive::VecAdditionalExecFns;
use vstd::prelude::*;

verus! {

/// A surface that accepts one 8-bit intensity per pixel position. The
/// in-memory implementation is [`ImageBuffer`]; a streaming encoder could
/// implement it instead without touching the renderer.
pub trait Drawable {
    /// Number of pixel columns the surface accepts.
    spec fn surface_width(&self) -> u32;

    /// Number of pixel rows the surface accepts.
    spec fn surface_height(&self) -> u32;

    /// The intensity currently held at `(x, y)`.
    spec fn cell(&self, x: u32, y: u32) -> u8;

    /// Place intensity `val` at `(x, y)`, leaving the dimensions and every
    /// other in-range cell unchanged.
    fn draw(&mut self, x: u32, y: u32, val: u8)
        requires
            x < old(self).surface_width(),
            y < old(self).surface_height(),
        ensures
            final(self).surface_width() == old(self).surface_width(),
            final(self).surface_height() == old(self).surface_height(),
            final(self).cell(x, y) == val,
            forall|a: u32, b: u32|
                a < old(self).surface_width() && b < old(self).surface_height() && !(a == x && b
                    == y) ==> #[trigger] final(self).cell(a, b) == old(self).cell(a, b),
    ;
}

/// A width x height grid of intensities, stored row-major, one byte per
/// pixel. Its view is the row-major byte sequence.
pub struct ImageBuffer {
    w: u32,
    h: u32,
    data: Vec<u8>,
}

impl View for ImageBuffer {
    type V = Seq<u8>;

    closed spec fn view(&self) -> Seq<u8> {
        self.data@
    }
}

impl ImageBuffer {
    /// Well-formedness: the backing storage holds exactly one byte per pixel.
    /// [`Drawable::surface_width`] reports 0 for a buffer without it, so
    /// every reachable draw happens on a well-formed buffer.
    pub closed spec fn wf(self) -> bool {
        self.data.len() == self.w * self.h
    }

    /// A buffer with at least one reported column is well-formed.
    pub proof fn lemma_wf_from_width(&self)
        requires
            1 <= self.surface_width(),
        ensures
            self.wf(),
    {
    }

    /// One byte per pixel, stated of the view.
    pub proof fn lemma_view_len(&self)
        requires
            self.wf(),
        ensures
            self@.len() == self.surface_width() * self.surface_height(),
    {
    }

    /// The cell at `(x, y)` sits at row-major index `y * width + x` of the
    /// view.
    pub proof fn lemma_cell_index(&self, x: u32, y: u32)
        requires
            self.wf(),
        ensures
            self.cell(x, y) == self@[(y as int) * (self.surface_width() as int) + (x as int)],
    {
    }

    /// A buffer of the given dimensions with every cell zero.
    pub fn new(w: u32, h: u32) -> (buf: ImageBuffer)
        requires
            w * h <= u32::MAX,
        ensures
            buf.wf(),
            buf.surface_width() == w,
            buf.surface_height() == h,
            buf@ == Seq::new((w * h) as nat, |i: int| 0u8),
    {
        let len = (w as usize) * (h as usize);
        let mut data: Vec<u8> = Vec::new();
        let mut k: usize = 0;
        while k < len
            invariant
                k <= len,
                data@.len() == k,
                forall|i: int| 0 <= i < k ==> data@[i] == 0u8,
            decreases len - k,
        {
            data.push(0u8);
            k = k + 1;
        }
        let buf = ImageBuffer { w, h, data };
        proof {
            assert(buf@ =~= Seq::new((w * h) as nat, |i: int| 0u8));
        }
        buf
    }

    /// Number of pixel columns.
    pub fn width(&self) -> (w: u32)
        requires
            self.wf(),
        ensures
            w == self.surface_width(),
    {
        self.w
    }

    /// Number of pixel rows.
    pub fn height(&self) -> (h: u32)
        ensures
            h == self.surface_height(),
    {
        self.h
    }

    /// Read the cell at `(x, y)`.
    pub fn get(&self, x: u32, y: u32) -> (v: u8)
        requires
            x < self.surface_width(),
            y < self.surface_height(),
        ensures
            v == self.cell(x, y),
    {
        proof {
            assert((y as int) * (self.w as int) + (x as int) < (self.w as int) * (self.h as int)
                && 0 <= (y as int) * (self.w as int) + (x as int) && (y as int) * (self.w as int)
                == (y as int) * (self.w as int)) by (nonlinear_arith)
                requires
                    (x as int) < (self.w as int),
                    (y as int) < (self.h as int),
                    0 <= (x as int),
                    0 <= (y as int);
        }
        let idx = (y as usize) * (self.w as usize) + (x as usize);
        self.data[idx]
    }

    /// The row-major bytes, for hand-off to an encoder.
    pub fn into_bytes(self) -> (bytes: Vec<u8>)
        ensures
            bytes@ == self@,
    {
        self.data
    }
}

impl Drawable for ImageBuffer {
    closed spec fn surface_width(&self) -> u32 {
        if self.data.len() == self.w * self.h {
            self.w
        } else {
            0
        }
    }

    closed spec fn surface_height(&self) -> u32 {
        self.h
    }

    closed spec fn cell(&self, x: u32, y: u32) -> u8 {
        self.data@[(y as int) * (self.w as int) + (x as int)]
    }

    fn draw(&mut self, x: u32, y: u32, val: u8) {
        proof {
            assert((y as int) * (self.w as int) + (x as int) < (self.w as int) * (self.h as int)
                && 0 <= (y as int) * (self.w as int) + (x as int)) by (nonlinear_arith)
                requires
                    (x as int) < (self.w as int),
                    (y as int) < (self.h as int),
                    0 <= (x as int),
                    0 <= (y as int);
        }
        let idx = (y as usize) * (self.w as usize) + (x as usize);
        self.data.set(idx, val);
        proof {
            assert forall|a: u32, b: u32|
                a < self.w && b < self.h && !(a == x && b == y) implies #[trigger] self.cell(a, b)
                == old(self).cell(a, b) by {
                assert((b as int) * (self.w as int) + (a as int) != (y as int) * (self.w as int)
                    + (x as int) && 0 <= (b as int) * (self.w as int) + (a as int) < (self.w
                    as int) * (self.h as int)) by (nonlinear_arith)
                    requires
                        (a as int) < (self.w as int),
                        (x as int) < (self.w as int),
                        (b as int) < (self.h as int),
                        (y as int) < (self.h as int),
                        0 <= (a as int),
                        0 <= (b as int),
                        0 <= (x as int),
                        0 <= (y as int),
                        !((a as int) == (x as int) && (b as int) == (y as int));
            }
        }
    }
}

} // verus!
