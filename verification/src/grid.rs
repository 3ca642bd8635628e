//! The in-memory pixel grids the pipeline works on.
//!
//! `PixelGrid` is a width x height matrix of RGB samples in row-major order,
//! three bytes per pixel; `LumaGrid` holds one luminance byte per pixel. Each
//! transform consumes one grid and produces a new one, so no stage aliases
//! another's data.

use vstd::prelude::*;

verus! {

/// A width x height RGB raster, row-major, three channel bytes per pixel.
#[derive(Clone, Debug)]
pub struct PixelGrid {
    pub width: usize,
    pub height: usize,
    /// `3 * (y * width + x) + c` holds channel `c` of the pixel at `(x, y)`.
    pub data: Vec<u8>,
}

impl PixelGrid {
    /// The dimensions index image space and the buffer holds exactly one RGB
    /// triple per pixel.
    pub open spec fn wf(&self) -> bool {
        &&& self.width <= 0xFFFF_FFFF
        &&& self.height <= 0xFFFF_FFFF
        &&& self.data@.len() == 3 * self.width * self.height
    }

    /// Channel `c` of the pixel at `(x, y)`.
    pub open spec fn chan(&self, x: int, y: int, c: int) -> u8 {
        self.data@[3 * (y * self.width + x) + c]
    }

    /// Builds a grid from raw row-major RGB bytes, if the buffer length
    /// matches the dimensions.
    pub fn new(width: usize, height: usize, data: Vec<u8>) -> (r: Option<PixelGrid>)
        ensures
            match r {
                Some(g) => {
                    &&& g.wf()
                    &&& g.width == width
                    &&& g.height == height
                    &&& g.data@ == data@
                },
                None => !(width <= 0xFFFF_FFFF && height <= 0xFFFF_FFFF && data@.len() == 3
                    * width * height),
            },
    {
        if (width as u64) <= 0xFFFF_FFFFu64 && (height as u64) <= 0xFFFF_FFFFu64 {
            proof {
                assert((width as int) * (height as int) <= 0xFFFF_FFFF * 0xFFFF_FFFF)
                    by (nonlinear_arith)
                    requires
                        width <= 0xFFFF_FFFF,
                        height <= 0xFFFF_FFFF,
                        0 <= width,
                        0 <= height,
                ;
                assert(3 * (width as int) * (height as int) == (width as int) * (height as int)
                    * 3) by (nonlinear_arith);
            }
            if (data.len() as u128) == (width as u128) * (height as u128) * 3u128 {
                Some(PixelGrid { width, height, data })
            } else {
                None
            }
        } else {
            None
        }
    }
}

/// A width x height luminance raster, row-major, one byte per pixel.
#[derive(Clone, Debug)]
pub struct LumaGrid {
    pub width: usize,
    pub height: usize,
    /// `y * width + x` holds the luminance of the pixel at `(x, y)`.
    pub data: Vec<u8>,
}

impl LumaGrid {
    /// The dimensions index image space and the buffer holds exactly one
    /// luminance byte per pixel.
    pub open spec fn wf(&self) -> bool {
        &&& self.width <= 0xFFFF_FFFF
        &&& self.height <= 0xFFFF_FFFF
        &&& self.data@.len() == self.width * self.height
    }

    /// The luminance of the pixel at `(x, y)`.
    pub open spec fn luma(&self, x: int, y: int) -> u8 {
        self.data@[y * self.width + x]
    }

    /// Builds a grid from raw row-major luminance bytes, if the buffer length
    /// matches the dimensions.
    pub fn new(width: usize, height: usize, data: Vec<u8>) -> (r: Option<LumaGrid>)
        ensures
            match r {
                Some(g) => {
                    &&& g.wf()
                    &&& g.width == width
                    &&& g.height == height
                    &&& g.data@ == data@
                },
                None => !(width <= 0xFFFF_FFFF && height <= 0xFFFF_FFFF && data@.len() == width
                    * height),
            },
    {
        if (width as u64) <= 0xFFFF_FFFFu64 && (height as u64) <= 0xFFFF_FFFFu64 {
            proof {
                assert((width as int) * (height as int) <= 0xFFFF_FFFF * 0xFFFF_FFFF)
                    by (nonlinear_arith)
                    requires
                        width <= 0xFFFF_FFFF,
                        height <= 0xFFFF_FFFF,
                        0 <= width,
                        0 <= height,
                ;
            }
            if (data.len() as u128) == (width as u128) * (height as u128) {
                Some(LumaGrid { width, height, data })
            } else {
                None
            }
        } else {
            None
        }
    }
}

} // verus!
