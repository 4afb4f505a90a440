//! An in-memory image: a row-major buffer of packed 0xAARRGGBB pixels.
//! File loading is I/O and stays outside this crate; the buffer,
//! allocation and pixel access live here.
#![allow(non_snake_case)]

use vstd::prelude::*;

verus! {

/// Supported pixel layouts; only 32-bit ARGB carries data.
pub enum EFormat {
    eFormat_None,
    eFormat_8888,
}

/// A bitmap: dimensions, pixel format, and the row-major pixel buffer.
pub struct Bitmap {
    pub sizeX: usize,
    pub sizeY: usize,
    pub fmt: EFormat,
    pub data: Vec<u32>,
}

/// The fixed-layout header of a TGA image file.
#[derive(Clone, Copy, Debug)]
pub struct TGAHeader {
    pub imageIDLength: u8,
    pub colorMapType: u8,
    pub imageType: u8,
    pub colorMapFirstIndex: u16,
    pub colorMapLength: u16,
    pub colorMapBitsPerEntry: u8,
    pub xOrigin: u16,
    pub yOrigin: u16,
    pub width: u16,
    pub height: u16,
    pub bitsPerPixel: u8,
    pub imageDescriptor: u8,
}

/// An allocated 32-bit bitmap holds exactly one pixel per coordinate.
pub open spec fn bitmap_allocated(b: Bitmap) -> bool {
    &&& b.fmt is eFormat_8888
    &&& b.data@.len() == b.sizeX * b.sizeY
}

impl Bitmap {
    pub fn default() -> (r: Bitmap)
        ensures
            r.sizeX == 0,
            r.sizeY == 0,
            r.fmt is eFormat_None,
            r.data@ == Seq::<u32>::empty(),
    {
        Bitmap { sizeX: 0, sizeY: 0, fmt: EFormat::eFormat_None, data: Vec::new() }
    }

    /// Allocate a zeroed pixel buffer of the given dimensions.
    pub fn allocateMemory(&mut self, xs: usize, ys: usize, format: EFormat)
        requires
            xs > 0,
            ys > 0,
            format is eFormat_8888,
            xs * ys <= usize::MAX,
        ensures
            final(self).sizeX == xs,
            final(self).sizeY == ys,
            final(self).fmt == format,
            final(self).data@.len() == xs * ys,
            forall|i: int| 0 <= i < xs * ys ==> final(self).data@[i] == 0,
            bitmap_allocated(*final(self)),
    {
        let total = xs * ys;
        self.data = vec![0u32; total];
        self.sizeX = xs;
        self.sizeY = ys;
        self.fmt = format;
    }

    /// Release the pixel buffer and reset to the empty state.
    pub fn freeMemory(&mut self)
        ensures
            final(self).sizeX == 0,
            final(self).sizeY == 0,
            final(self).fmt is eFormat_None,
            final(self).data@ == Seq::<u32>::empty(),
    {
        self.data.clear();
        self.sizeX = 0;
        self.sizeY = 0;
        self.fmt = EFormat::eFormat_None;
    }

    /// The packed 0xAARRGGBB pixel at the given coordinates.
    pub fn getPix(&self, x: usize, y: usize) -> (r: u32)
        requires
            bitmap_allocated(*self),
            x < self.sizeX,
            y < self.sizeY,
        ensures
            r == self.data@[y * self.sizeX + x],
    {
        let pixel_count = self.data.len();
        proof {
            assert(pixel_count == self.sizeX * self.sizeY);
            lemma_pixel_index(x as int, y as int, self.sizeX as int, self.sizeY as int);
        }
        self.data[y * self.sizeX + x]
    }

    /// Store a packed 0xAARRGGBB pixel at the given coordinates.
    pub fn setPix(&mut self, x: usize, y: usize, argb: u32)
        requires
            bitmap_allocated(*old(self)),
            x < old(self).sizeX,
            y < old(self).sizeY,
        ensures
            final(self).sizeX == old(self).sizeX,
            final(self).sizeY == old(self).sizeY,
            final(self).fmt == old(self).fmt,
            final(self).data@ == old(self).data@.update(
                y * old(self).sizeX + x,
                argb,
            ),
            bitmap_allocated(*final(self)),
    {
        let dl = self.data.len();
        let pixel_count = self.data.len();
        proof {
            assert(pixel_count == self.sizeX * self.sizeY);
            lemma_pixel_index(x as int, y as int, self.sizeX as int, self.sizeY as int);
        }
        self.data[y * self.sizeX + x] = argb;
    }

    /// BMP images are not supported: the bitmap is reset and an error
    /// naming the format is returned.
    pub fn loadBMP(&mut self, _filename: &str) -> (r: Result<bool, String>)
        ensures
            r is Err,
            final(self).sizeX == 0,
            final(self).sizeY == 0,
            final(self).fmt is eFormat_None,
            final(self).data@ == Seq::<u32>::empty(),
    {
        self.freeMemory();
        Err(bmp_unsupported_message())
    }
}

/// The error text `loadBMP` reports.
fn bmp_unsupported_message() -> (r: String)
    ensures
        r@ == ".BMP images are not supported"@,
{
    ".BMP images are not supported".to_owned()
}

/// A row-major pixel coordinate lands inside the buffer.
proof fn lemma_pixel_index(x: int, y: int, sx: int, sy: int)
    requires
        0 <= x < sx,
        0 <= y < sy,
    ensures
        0 <= y * sx + x < sx * sy,
{
    assert(0 <= y * sx + x < sx * sy) by (nonlinear_arith)
        requires
            0 <= x < sx,
            0 <= y < sy,
    ;
}

} // verus!
