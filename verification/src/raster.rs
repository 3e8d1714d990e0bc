//! The order in which the pixels of an image are produced.
//!
//! An image is written row by row from the top, each row from the left.
//! Rows are numbered from the bottom, as the camera counts them, so the
//! first pixel written is the leftmost one of the highest row.
use vstd::prelude::*;

verus! {

/// The size of an image in pixels.
#[derive(Clone, Copy, Debug)]
pub struct Raster {
    pub width: u32,
    pub height: u32,
}

impl Raster {
    /// The number of pixels.
    pub open spec fn len(&self) -> int {
        self.width * self.height
    }

    /// The column and the row (counted from the bottom) of the pixel that is
    /// written at place `index`.
    pub open spec fn pixel_spec(&self, index: int) -> (int, int) {
        (index % (self.width as int), self.height - 1 - index / (self.width as int))
    }

    /// The place at which the pixel in `column` and `row` is written.
    pub open spec fn index_spec(&self, column: int, row: int) -> int {
        (self.height - 1 - row) * self.width + column
    }

    pub fn new(width: u32, height: u32) -> (raster: Raster)
        ensures
            raster == (Raster { width, height }),
    {
        Raster { width, height }
    }

    /// The number of pixels.
    pub fn pixel_count(&self) -> (n: u64)
        ensures
            n == self.len(),
    {
        assert(self.width * self.height <= 0xffff_ffff * 0xffff_ffff) by (nonlinear_arith)
            requires
                self.width <= 0xffff_ffff,
                self.height <= 0xffff_ffff,
        ;
        (self.width as u64) * (self.height as u64)
    }

    /// The column and row of the pixel written at place `index`, or nothing
    /// if the image has no such place.
    pub fn pixel(&self, index: u64) -> (at: Option<(u32, u32)>)
        ensures
            at is Some <==> index < self.len(),
            at matches Some((column, row)) ==> (column as int, row as int) == self.pixel_spec(
                index as int,
            ) && column < self.width && row < self.height && self.index_spec(
                column as int,
                row as int,
            ) == index,
    {
        if index >= self.pixel_count() {
            return None;
        }
        let width = self.width as u64;
        let column = index % width;
        let down = index / width;
        proof {
            assert(down < self.height && index == down * width + column) by (nonlinear_arith)
                requires
                    index < width * self.height,
                    0 < width,
                    column == index % width,
                    down == index / width,
            ;
            assert((self.height - 1 - (self.height - 1 - down)) * self.width + column == index)
                by (nonlinear_arith)
                requires
                    index == down * width + column,
                    width == self.width,
            ;
        }
        Some((column as u32, (self.height as u64 - 1 - down) as u32))
    }

    /// The place at which the pixel in `column` and `row` is written, or
    /// nothing if the image has no such pixel.
    pub fn index_of(&self, column: u32, row: u32) -> (index: Option<u64>)
        ensures
            index is Some <==> column < self.width && row < self.height,
            index matches Some(i) ==> i == self.index_spec(column as int, row as int) && i
                < self.len() && self.pixel_spec(i as int) == (column as int, row as int),
    {
        if column >= self.width || row >= self.height {
            return None;
        }
        let down: u64 = (self.height - 1 - row) as u64;
        let width = self.width as u64;
        proof {
            let w = width as int;
            let i = down * w + column;
            assert(i < w * self.height && i / w == down && i % w == column) by (nonlinear_arith)
                requires
                    0 <= down < self.height,
                    0 <= column < w,
                    i == down * w + column,
            ;
            assert(width * self.height <= 0xffff_ffff * 0xffff_ffff) by (nonlinear_arith)
                requires
                    width <= 0xffff_ffff,
                    self.height <= 0xffff_ffff,
            ;
        }
        Some(down * width + column as u64)
    }
}

} // verus!
