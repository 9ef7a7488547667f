//! The RGBA raster that every stage works on.
use vstd::prelude::*;

verus! {

/// A row-major RGBA raster: four bytes per pixel, in the order R, G, B, A.
pub struct PixelBuffer {
    pub width: u32,
    pub height: u32,
    pub pixels: Vec<u8>,
}

/// What a raster holds, as a mathematical value.
pub struct Raster {
    pub width: u32,
    pub height: u32,
    pub pixels: Seq<u8>,
}

impl Raster {
    /// The byte count matches the dimensions.
    pub open spec fn wf(&self) -> bool {
        self.pixels.len() == self.width as int * self.height as int * 4
    }

    /// Channel `c` of pixel `(x, y)`.
    pub open spec fn at(&self, x: int, y: int, c: int) -> u8 {
        self.pixels[pixel_index(self.width as int, x, y, c)]
    }
}

impl View for PixelBuffer {
    type V = Raster;

    open spec fn view(&self) -> Raster {
        Raster { width: self.width, height: self.height, pixels: self.pixels@ }
    }
}

/// Position of channel `c` of pixel `(x, y)` in a raster `w` pixels wide.
pub open spec fn pixel_index(w: int, x: int, y: int, c: int) -> int {
    (y * w + x) * 4 + c
}

/// Whether `(x, y, c)` names a channel of a `w` by `h` raster.
pub open spec fn in_raster(w: int, h: int, x: int, y: int, c: int) -> bool {
    0 <= x < w && 0 <= y < h && 0 <= c < 4
}

impl PixelBuffer {
    /// The byte count matches the dimensions.
    pub open spec fn wf(&self) -> bool {
        self.pixels@.len() == self.width as int * self.height as int * 4
    }

    /// Channel `c` of pixel `(x, y)`.
    pub open spec fn at(&self, x: int, y: int, c: int) -> u8 {
        self.pixels@[pixel_index(self.width as int, x, y, c)]
    }

    /// Builds a raster from raw bytes, or `None` when their count does not
    /// match `width * height * 4`.
    pub fn from_raw(width: u32, height: u32, pixels: Vec<u8>) -> (r: Option<PixelBuffer>)
        ensures
            r is Some <==> pixels@.len() == width as int * height as int * 4,
            r matches Some(b) ==> (b.width == width && b.height == height && b.pixels@ == pixels@),
    {
        assert(width as int * height as int <= u32::MAX as int * u32::MAX as int) by (nonlinear_arith)
            requires width <= u32::MAX, height <= u32::MAX, width >= 0, height >= 0;
        let expected: u128 = width as u128 * height as u128 * 4;
        if pixels.len() as u128 == expected {
            Some(PixelBuffer { width, height, pixels })
        } else {
            None
        }
    }
}

/// Position of the first channel of pixel `(x, y)` in a `w` by `h` raster
/// whose byte sequence has length `len`.
pub(crate) fn index_of(w: u32, h: u32, x: u32, y: u32, len: usize) -> (r: usize)
    requires
        x < w,
        y < h,
        len == w as int * h as int * 4,
    ensures
        r == pixel_index(w as int, x as int, y as int, 0),
        r + 4 <= len,
{
    proof {
        lemma_index_in_bounds(w as int, h as int, x as int, y as int, 3);
        assert(0 <= y as int * w as int) by (nonlinear_arith)
            requires 0 <= y, 0 <= w;
    }
    (y as usize * w as usize + x as usize) * 4
}

/// Every channel of a raster has its own position, inside the byte sequence.
pub proof fn lemma_index_in_bounds(w: int, h: int, x: int, y: int, c: int)
    requires
        in_raster(w, h, x, y, c),
    ensures
        0 <= pixel_index(w, x, y, c) < w * h * 4,
        0 <= y * w + x < w * h,
{
    assert(y * w + x < (y + 1) * w) by (nonlinear_arith)
        requires 0 <= x < w;
    assert((y + 1) * w <= h * w) by (nonlinear_arith)
        requires y + 1 <= h, 0 <= w;
    assert(0 <= y * w) by (nonlinear_arith)
        requires 0 <= y, 0 <= w;
    assert(w * h == h * w) by (nonlinear_arith);
}

/// Distinct channels of a raster lie at distinct positions.
pub proof fn lemma_index_distinct(w: int, x1: int, y1: int, c1: int, x2: int, y2: int, c2: int)
    requires
        0 <= x1 < w,
        0 <= x2 < w,
        0 <= y1,
        0 <= y2,
        0 <= c1 < 4,
        0 <= c2 < 4,
        x1 != x2 || y1 != y2 || c1 != c2,
    ensures
        pixel_index(w, x1, y1, c1) != pixel_index(w, x2, y2, c2),
{
    if y1 < y2 {
        assert((y1 + 1) * w <= y2 * w) by (nonlinear_arith)
            requires y1 + 1 <= y2, 0 <= w;
        assert(y1 * w + w == (y1 + 1) * w) by (nonlinear_arith);
    } else if y2 < y1 {
        assert((y2 + 1) * w <= y1 * w) by (nonlinear_arith)
            requires y2 + 1 <= y1, 0 <= w;
        assert(y2 * w + w == (y2 + 1) * w) by (nonlinear_arith);
    }
}

} // verus!
