use vstd::prelude::*;

use crate::arith::lemma_grid_index;

verus! {

/// An 8-bit grayscale image, stored row-major.
pub struct GrayscaleImage {
    width: usize,
    height: usize,
    pixels: Vec<u8>,
}

impl GrayscaleImage {
    /// Both sides are positive and the buffer holds exactly one byte per pixel.
    pub open spec fn wf(&self) -> bool {
        &&& self.spec_width() > 0
        &&& self.spec_height() > 0
        &&& self.view_pixels().len() == self.spec_width() * self.spec_height()
    }

    pub closed spec fn spec_width(&self) -> nat {
        self.width as nat
    }

    pub closed spec fn spec_height(&self) -> nat {
        self.height as nat
    }

    /// The row-major pixel buffer.
    pub closed spec fn view_pixels(&self) -> Seq<u8> {
        self.pixels@
    }

    /// Intensity of the pixel in column `x` and row `y`.
    pub open spec fn spec_pixel(&self, x: int, y: int) -> u8 {
        self.view_pixels()[y * self.spec_width() + x]
    }

    /// Builds an image from a row-major buffer; `None` when a side is zero or
    /// the buffer length is not `width * height`.
    pub fn from_raw(width: usize, height: usize, pixels: Vec<u8>) -> (r: Option<GrayscaleImage>)
        ensures
            r is Some <==> (width > 0 && height > 0 && pixels@.len() == width * height),
            r matches Some(img) ==> {
                &&& img.wf()
                &&& img.spec_width() == width
                &&& img.spec_height() == height
                &&& img.view_pixels() == pixels@
            },
    {
        if width == 0 || height == 0 {
            return None;
        }
        if pixels.len() / width != height || pixels.len() % width != 0 {
            proof {
                if pixels@.len() == width * height {
                    crate::arith::lemma_grid_split(0, height as int, width as int);
                }
            }
            return None;
        }
        proof {
            vstd::arithmetic::div_mod::lemma_fundamental_div_mod(pixels@.len() as int, width as int);
            vstd::arithmetic::mul::lemma_mul_is_commutative(width as int, height as int);
        }
        Some(GrayscaleImage { width, height, pixels })
    }

    pub fn width(&self) -> (r: usize)
        ensures
            r == self.spec_width(),
    {
        self.width
    }

    pub fn height(&self) -> (r: usize)
        ensures
            r == self.spec_height(),
    {
        self.height
    }

    /// The row-major pixel buffer.
    pub fn pixels(&self) -> (r: &Vec<u8>)
        ensures
            r@ == self.view_pixels(),
    {
        &self.pixels
    }

    /// Intensity of the pixel in column `x` and row `y`.
    pub fn pixel(&self, x: usize, y: usize) -> (r: u8)
        requires
            self.wf(),
            x < self.spec_width(),
            y < self.spec_height(),
        ensures
            r == self.spec_pixel(x as int, y as int),
    {
        proof {
            lemma_grid_index(x as int, y as int, self.width as int, self.height as int);
            vstd::arithmetic::mul::lemma_mul_is_commutative(self.width as int, self.height as int);
        }
        let n = self.pixels.len();
        assert(n == self.pixels@.len());
        self.pixels[y * self.width + x]
    }

}

} // verus!
