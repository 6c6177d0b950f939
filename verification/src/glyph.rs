//! The data carried through atlas construction: one rasterized glyph, the
//! pixel rectangle of a packed cell, and the error cases.

use vstd::prelude::*;

verus! {

/// One rasterized glyph: a row-major coverage bitmap of `width * height`
/// bytes, row 0 at the top.  A coverage value of 0 means the glyph does not
/// touch the pixel, 255 that it covers it fully.
#[derive(Debug, PartialEq, Eq)]
pub struct Glyph {
    /// Width of the bitmap in pixels.
    pub width: usize,
    /// Height of the bitmap in pixels.
    pub height: usize,
    /// Coverage values, `width * height` of them, row-major from the top left.
    pub pixels: Vec<u8>,
}

/// A glyph's bitmap holds exactly one byte per pixel.
pub open spec fn glyph_wf(g: Glyph) -> bool {
    g.pixels@.len() == g.width * g.height
}

impl Glyph {
    /// Builds a glyph from its dimensions and coverage bytes, checking that
    /// the byte count matches; a mismatched buffer gives `None`.
    pub fn from_parts(width: usize, height: usize, pixels: Vec<u8>) -> (r: Option<Glyph>)
        ensures
            r is Some <==> pixels@.len() == width * height,
            r is Some ==> glyph_wf(r->0) && r->0.width == width && r->0.height == height
                && r->0.pixels@ == pixels@,
    {
        let len = pixels.len();
        match width.checked_mul(height) {
            Some(n) if n == len => Some(Glyph { width, height, pixels }),
            _ => None,
        }
    }
}

/// The pixel rectangle of one packed cell, row 0 at the top.  The normalized
/// texture rectangle is obtained by dividing each coordinate by the atlas
/// side length: `u1 = x_min / atlas_size` and so on.
#[derive(Clone, Copy, Debug, PartialEq, Eq, Structural)]
pub struct GlyphRect {
    /// Left edge, in pixels.
    pub x_min: usize,
    /// Top edge, in pixels.
    pub y_min: usize,
    /// Right edge (exclusive), in pixels.
    pub x_max: usize,
    /// Bottom edge (exclusive), in pixels.
    pub y_max: usize,
}

impl GlyphRect {
    /// Swaps the vertical edges, for consumers whose texture row order puts
    /// row 0 at the bottom.
    pub fn flip_v(&self) -> (r: GlyphRect)
        ensures
            r.x_min == self.x_min,
            r.x_max == self.x_max,
            r.y_min == self.y_max,
            r.y_max == self.y_min,
    {
        GlyphRect { x_min: self.x_min, y_min: self.y_max, x_max: self.x_max, y_max: self.y_min }
    }
}

/// The rectangle covers the pixel at column `px`, row `py`.
pub open spec fn rect_contains(r: GlyphRect, px: int, py: int) -> bool {
    r.x_min <= px < r.x_max && r.y_min <= py < r.y_max
}

/// Why atlas construction or lookup failed.
#[derive(Clone, Copy, Debug, PartialEq, Eq, Structural)]
pub enum AtlasError {
    /// The atlas is too small for the requested range at the requested cell
    /// size: the glyph of `codepoint` would have been placed at pixel
    /// position `(x, y)`, which lies outside the atlas.  Fatal: the caller
    /// must rebuild with a larger atlas or a smaller cell.
    Overflow { codepoint: u32, x: usize, y: usize },
    /// The codepoint lies outside the packed range 32..128.
    OutOfRange { codepoint: u32 },
}

} // verus!
