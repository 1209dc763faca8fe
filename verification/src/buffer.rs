//! The shared frame of accumulated radiance.
//!
//! One entry per pixel, row-major from the top-left, with the radiance of a
//! pixel held as the bit patterns of its three binary64 channels. The buffer
//! is created once per render at its final size and is never resized: writes
//! only replace entries, so the frame always holds exactly
//! `width * height` pixels.

use crate::float_bits::total_le;
use crate::float_bits::total_order_key;
use vstd::prelude::*;

verus! {

/// Radiance of one pixel: the bit patterns of the three binary64 channels.
#[derive(Clone, Copy, Debug, PartialEq, Eq, Structural)]
pub struct Pixel {
    pub x: u64,
    pub y: u64,
    pub z: u64,
}

/// Pixel with every channel holding the bit pattern of zero.
pub open spec fn black_pixel() -> Pixel {
    Pixel { x: 0, y: 0, z: 0 }
}

/// The frame of accumulated radiance shared by every worker.
pub struct ImageBuffer {
    pub width: usize,
    pub height: usize,
    pub data: Vec<Pixel>,
}

impl ImageBuffer {
    /// The buffer holds exactly one entry per pixel of its frame.
    pub open spec fn wf(&self) -> bool {
        &&& self.width >= 1
        &&& self.width * self.height <= usize::MAX
        &&& self.data@.len() == self.width * self.height
    }

    /// Row-major position of the pixel at column `x`, row `y`.
    pub open spec fn spec_index_of(&self, x: int, y: int) -> int {
        x + self.width * y
    }

    /// Fresh buffer of the given frame size, every pixel black.
    pub fn new(width: usize, height: usize) -> (b: ImageBuffer)
        requires
            width >= 1,
            width * height <= usize::MAX,
        ensures
            b.wf(),
            b.width == width,
            b.height == height,
            forall|k: int| 0 <= k < b.data@.len() ==> b.data@[k] == black_pixel(),
    {
        let len = width * height;
        let data = vec![Pixel { x: 0, y: 0, z: 0 }; len];
        ImageBuffer { width, height, data }
    }

    /// Replace the pixel at column `x`, row `y`; every other pixel and the
    /// frame size stay as they were.
    pub fn set_pixel(&mut self, x: usize, y: usize, pixel: Pixel)
        requires
            old(self).wf(),
            x < old(self).width,
            y < old(self).height,
        ensures
            final(self).wf(),
            final(self).width == old(self).width,
            final(self).height == old(self).height,
            final(self).data@ == old(self).data@.update(old(self).spec_index_of(x as int, y as int), pixel),
    {
        proof {
            lemma_row_major_in_bounds(x as int, y as int, self.width as int, self.height as int);
        }
        let idx = x + self.width * y;
        self.data.set(idx, pixel);
    }

    /// Pixel at column `x`, row `y`.
    pub fn get_pixel(&self, x: usize, y: usize) -> (p: Pixel)
        requires
            self.wf(),
            x < self.width,
            y < self.height,
        ensures
            p == self.data@[self.spec_index_of(x as int, y as int)],
    {
        proof {
            lemma_row_major_in_bounds(x as int, y as int, self.width as int, self.height as int);
        }
        let idx = x + self.width * y;
        self.data[idx]
    }

    /// Greatest channel value of the frame in the standard total order on
    /// binary64 values, as a bit pattern: some channel of some pixel holds
    /// it, and no channel of any pixel exceeds it. `None` exactly when the
    /// frame has no pixels.
    pub fn brightest_channel(&self) -> (r: Option<u64>)
        ensures
            r is Some <==> self.data@.len() > 0,
            r matches Some(m) ==> {
                &&& exists|i: int|
                    0 <= i < self.data@.len() && ((#[trigger] self.data@[i]).x == m
                        || self.data@[i].y == m || self.data@[i].z == m)
                &&& forall|i: int|
                    0 <= i < self.data@.len() ==> total_order_key((#[trigger] self.data@[i]).x)
                        <= total_order_key(m) && total_order_key(self.data@[i].y)
                        <= total_order_key(m) && total_order_key(self.data@[i].z)
                        <= total_order_key(m)
            },
    {
        if self.data.len() == 0 {
            return None;
        }
        let mut m: u64 = self.data[0].x;
        let mut i: usize = 0;
        while i < self.data.len()
            invariant
                0 < self.data@.len(),
                i <= self.data@.len(),
                exists|k: int|
                    0 <= k < self.data@.len() && ((#[trigger] self.data@[k]).x == m
                        || self.data@[k].y == m || self.data@[k].z == m),
                forall|k: int|
                    0 <= k < i ==> total_order_key((#[trigger] self.data@[k]).x)
                        <= total_order_key(m) && total_order_key(self.data@[k].y)
                        <= total_order_key(m) && total_order_key(self.data@[k].z)
                        <= total_order_key(m),
            decreases self.data@.len() - i,
        {
            let p = self.data[i];
            if !total_le(p.x, m) {
                m = p.x;
            }
            if !total_le(p.y, m) {
                m = p.y;
            }
            if !total_le(p.z, m) {
                m = p.z;
            }
            i = i + 1;
        }
        Some(m)
    }
}

/// Initialization of a render: the shared frame checked and allocated.
/// `None` exactly when the frame has no columns or its pixel count does not
/// fit the machine.
pub fn init(width: usize, height: usize) -> (r: Option<ImageBuffer>)
    ensures
        r is Some <==> width >= 1 && width * height <= usize::MAX,
        r matches Some(b) ==> {
            &&& b.wf()
            &&& b.width == width
            &&& b.height == height
            &&& forall|k: int| 0 <= k < b.data@.len() ==> b.data@[k] == black_pixel()
        },
{
    if width == 0 {
        return None;
    }
    if height != 0 && width > usize::MAX / height {
        proof {
            vstd::arithmetic::div_mod::lemma_fundamental_div_mod(usize::MAX as int, height as int);
            assert((usize::MAX as int / height as int + 1) * height as int == usize::MAX as int
                / height as int * height as int + height as int) by (nonlinear_arith);
            assert(width * height >= (usize::MAX as int / height as int + 1) * height as int)
                by (nonlinear_arith)
                requires
                    width >= usize::MAX as int / height as int + 1,
                    height >= 1,
            ;
        }
        return None;
    }
    proof {
        if height != 0 {
            assert(width * height <= (usize::MAX as int / height as int) * height as int)
                by (nonlinear_arith)
                requires
                    width <= usize::MAX as int / height as int,
                    height >= 1,
            ;
            vstd::arithmetic::div_mod::lemma_fundamental_div_mod(usize::MAX as int, height as int);
            vstd::arithmetic::div_mod::lemma_remainder_lower(usize::MAX as int, height as int);
        }
    }
    Some(ImageBuffer::new(width, height))
}

/// A well-formed buffer holds exactly one entry per pixel of its frame:
/// saved output assembled from it pixel for pixel has `width * height`
/// pixels.
pub proof fn lemma_pixel_count(b: &ImageBuffer)
    requires
        b.wf(),
    ensures
        b.data@.len() == b.width * b.height,
{
}

/// The row-major position of a pixel inside the frame is inside the buffer.
proof fn lemma_row_major_in_bounds(x: int, y: int, width: int, height: int)
    requires
        0 <= x < width,
        0 <= y < height,
    ensures
        0 <= x + width * y < width * height,
{
    assert(x + width * y < width * (y + 1)) by (nonlinear_arith)
        requires
            x < width,
    ;
    assert(width * (y + 1) <= width * height) by (nonlinear_arith)
        requires
            y + 1 <= height,
            width >= 0,
    ;
}

} // verus!
