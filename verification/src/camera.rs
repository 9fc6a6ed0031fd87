//! The camera: an image plane one unit in front of the eye, cut into
//! pixels.
use vstd::prelude::*;
use crate::matrices::Mat;
use crate::scalar::Scalar;
use crate::spaces;

verus! {

/// A view onto the scene.
#[derive(Debug, Copy, Clone, PartialEq)]
pub struct Camera {
    /// The number of pixels in a row.
    pub hsize: u32,
    /// The number of rows.
    pub vsize: u32,
    /// Takes the camera's frame to the scene's.
    pub inv_transform: Mat<4, spaces::Camera, spaces::World>,
    /// Half the width of the image plane.
    pub half_width: Scalar,
    /// Half the height of the image plane.
    pub half_height: Scalar,
    /// The width, and height, of one pixel on the image plane.
    pub pixel_size: Scalar,
    /// The number of samples along each side of a pixel.
    pub oversample: u32,
}

/// A walk over the pixels of an image, row by row from the top, each row
/// from the left.
#[derive(Debug, Copy, Clone, PartialEq, Eq)]
pub struct PixelIterator {
    pub hsize: u32,
    pub vsize: u32,
    pub nextx: u32,
    pub nexty: u32,
}

impl Camera {
    /// The camera with the given measures.
    pub fn new(
        hsize: u32,
        vsize: u32,
        inv_transform: Mat<4, spaces::Camera, spaces::World>,
        half_width: Scalar,
        half_height: Scalar,
        pixel_size: Scalar,
        oversample: u32,
    ) -> (c: Self)
        ensures
            c == (Camera {
                hsize,
                vsize,
                inv_transform,
                half_width,
                half_height,
                pixel_size,
                oversample,
            }),
    {
        Camera { hsize, vsize, inv_transform, half_width, half_height, pixel_size, oversample }
    }

    /// Whether the field of view spans the width of the image: the image
    /// is no narrower than it is high, its width divided by its height
    /// being `aspect`. Else the field of view spans the height.
    pub fn spans_width(aspect: Scalar) -> (r: bool)
        ensures
            r == (Scalar { bits: 0x3FF0_0000_0000_0000 }).spec_le(aspect),
    {
        aspect.ge(Scalar::one())
    }

    /// A walk over the pixels of the camera's image, from the first.
    pub fn pixels(&self) -> (it: PixelIterator)
        ensures
            it.hsize == self.hsize,
            it.vsize == self.vsize,
            it.nextx == 0,
            it.nexty == 0,
            it.wf(),
            it.given() == 0,
    {
        PixelIterator { hsize: self.hsize, vsize: self.vsize, nextx: 0, nexty: 0 }
    }

    /// The place of the pixel in column `x` and row `y` in a buffer that
    /// holds the image row by row.
    pub open spec fn spec_offset(&self, x: u32, y: u32) -> int {
        y * self.hsize + x
    }

    /// The place of the pixel in column `x` and row `y` in a buffer that
    /// holds the image row by row.
    pub fn offset(&self, x: u32, y: u32) -> (i: usize)
        requires
            x < self.hsize,
            y < self.vsize,
            self.hsize * self.vsize <= usize::MAX,
        ensures
            i == self.spec_offset(x, y),
            i < self.hsize * self.vsize,
    {
        proof {
            lemma_offset_in_image(self.hsize as int, self.vsize as int, x as int, y as int);
        }
        y as usize * self.hsize as usize + x as usize
    }

    /// The number of rays that are cast for one pixel.
    pub fn samples_per_pixel(&self) -> (n: u64)
        ensures
            n == self.oversample * self.oversample,
    {
        let s: u64 = self.oversample as u64;
        proof {
            assert(s * s <= 0xFFFF_FFFF * 0xFFFF_FFFF) by (nonlinear_arith)
                requires
                    0 <= s <= 0xFFFF_FFFF,
            ;
        }
        s * s
    }
}

impl PixelIterator {
    /// The number of pixels in a row of the walk. An image without
    /// columns is walked as though it had one.
    pub open spec fn stride(&self) -> int {
        if self.hsize == 0 {
            1
        } else {
            self.hsize as int
        }
    }

    /// Whether the walk stands on a pixel of a row.
    pub open spec fn wf(&self) -> bool {
        self.nextx < self.stride()
    }

    /// The number of pixels that the walk has given so far.
    pub open spec fn given(&self) -> int {
        self.nexty * self.stride() + self.nextx
    }

    /// Whether the walk is over.
    pub open spec fn done(&self) -> bool {
        self.nexty >= self.vsize
    }

    /// The next pixel, as column and row, until the last row is through.
    pub fn next(&mut self) -> (r: Option<(u32, u32)>)
        requires
            old(self).wf(),
        ensures
            final(self).wf(),
            final(self).hsize == old(self).hsize,
            final(self).vsize == old(self).vsize,
            old(self).done() ==> r.is_none() && *final(self) == *old(self),
            !old(self).done() ==> r == Some((old(self).nextx, old(self).nexty)),
            !old(self).done() ==> final(self).given() == old(self).given() + 1,
    {
        let rv: (u32, u32) = if self.nexty < self.vsize {
            (self.nextx, self.nexty)
        } else {
            return None;
        };
        proof {
            let w = self.stride();
            let y = self.nexty as int;
            assert((y + 1) * w == y * w + w) by (nonlinear_arith);
        }
        self.nextx += 1;
        if self.nextx >= self.hsize {
            self.nextx = 0;
            self.nexty += 1;
        }
        Some(rv)
    }
}

/// The pixel that a walk gives after `k` others is the one in column
/// `k` modulo the width and row `k` divided by the width: the walk goes
/// row by row, each row from the left.
pub proof fn lemma_pixel_order(it: PixelIterator)
    requires
        it.wf(),
    ensures
        it.nextx == it.given() % it.stride(),
        it.nexty == it.given() / it.stride(),
{
    let w = it.stride();
    let x = it.nextx as int;
    let y = it.nexty as int;
    vstd::arithmetic::div_mod::lemma_fundamental_div_mod_converse(y * w + x, w, y, x);
}

proof fn lemma_offset_in_image(w: int, h: int, x: int, y: int)
    requires
        0 <= x < w,
        0 <= y < h,
    ensures
        0 <= y * w <= y * w + x < w * h,
{
    assert(y * w + w <= h * w) by (nonlinear_arith)
        requires
            0 <= y < h,
            0 < w,
    ;
    assert(0 <= y * w) by (nonlinear_arith)
        requires
            0 <= y,
            0 < w,
    ;
    assert(h * w == w * h) by (nonlinear_arith);
}

/// Two pixels of an image never share a place in its buffer: the rows of
/// the buffer can be written side by side.
pub proof fn lemma_offsets_differ(c: Camera, x1: u32, y1: u32, x2: u32, y2: u32)
    requires
        x1 < c.hsize,
        x2 < c.hsize,
        c.spec_offset(x1, y1) == c.spec_offset(x2, y2),
    ensures
        x1 == x2,
        y1 == y2,
{
    let w = c.hsize as int;
    vstd::arithmetic::div_mod::lemma_fundamental_div_mod_converse(
        y1 * w + x1,
        w,
        y1 as int,
        x1 as int,
    );
    vstd::arithmetic::div_mod::lemma_fundamental_div_mod_converse(
        y2 * w + x2,
        w,
        y2 as int,
        x2 as int,
    );
}

/// A walk is over exactly when it has given one pixel for each place of
/// every row: the rows times the width.
pub proof fn lemma_walk_length(it: PixelIterator)
    requires
        it.wf(),
    ensures
        it.done() <==> it.given() >= it.vsize * it.stride(),
{
    let w = it.stride();
    let y = it.nexty as int;
    let v = it.vsize as int;
    if y < v {
        assert(y * w + w <= v * w) by (nonlinear_arith)
            requires
                y + 1 <= v,
                0 < w,
        ;
    } else {
        assert(v * w <= y * w) by (nonlinear_arith)
            requires
                v <= y,
                0 < w,
        ;
    }
}

} // verus!
