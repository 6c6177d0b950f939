//! Atlas construction: packing rasterized glyphs into one square bitmap and
//! recording each codepoint's cell rectangle.

use vstd::prelude::*;

use crate::glyph::AtlasError;
use crate::glyph::Glyph;
use crate::glyph::GlyphRect;
use crate::glyph::glyph_wf;
use crate::model::END_CODEPOINT;
use crate::model::FIRST_CODEPOINT;
use crate::model::GLYPH_COUNT;
use crate::model::atlas_pixels;
use crate::model::atlas_pixels_upto;
use crate::model::blit;
use crate::model::blit_upto;
use crate::model::cells_per_row;
use crate::model::center_offset;
use crate::model::config_ok;
use crate::model::grid_fits;
use crate::model::lemma_blit_step;
use crate::model::lemma_blit_upto_full;
use crate::model::lemma_blit_upto_zero;
use crate::model::lemma_pixel_index_bounds;
use crate::model::lemma_slot_in_atlas;
use crate::model::overflow_codepoint;
use crate::model::overflow_y;
use crate::model::rect_matches_slot;

verus! {

/// A finished atlas: the packed coverage bitmap, one byte per pixel,
/// row-major with row 0 at the top, and one cell rectangle per codepoint of
/// 32..128.
#[derive(Debug)]
pub struct GlyphAtlas {
    /// Side length of the square bitmap, in pixels.
    pub atlas_size: usize,
    /// Side length of each glyph cell, in pixels.
    pub cell_size: usize,
    /// The packed bitmap, `atlas_size * atlas_size` coverage bytes.
    pub pixels: Vec<u8>,
    /// Cell rectangles, one per codepoint, in codepoint order.
    pub rects: Vec<GlyphRect>,
}

impl GlyphAtlas {
    /// A well-formed atlas: an accepted configuration whose grid holds all
    /// the glyphs, a full pixel buffer, and one grid-slot rectangle per
    /// packed codepoint.
    pub open spec fn wf(self) -> bool {
        &&& config_ok(self.atlas_size as int, self.cell_size as int)
        &&& grid_fits(self.atlas_size as int, self.cell_size as int)
        &&& self.pixels@.len() == self.atlas_size * self.atlas_size
        &&& self.rects@.len() == GLYPH_COUNT
        &&& forall|i: int|
            0 <= i < GLYPH_COUNT ==> rect_matches_slot(
                #[trigger] self.rects@[i],
                i,
                self.atlas_size as int,
                self.cell_size as int,
            )
    }

    /// This atlas is what building from `glyphs` at this configuration
    /// produces.
    pub open spec fn is_build_of(self, glyphs: Seq<Glyph>, atlas_size: usize, cell_size: usize) -> bool {
        &&& self.wf()
        &&& self.atlas_size == atlas_size
        &&& self.cell_size == cell_size
        &&& self.pixels@ == atlas_pixels(glyphs, atlas_size as int, cell_size as int)
    }

    /// The packed bitmap expanded to four bytes per pixel, the coverage
    /// value duplicated into every channel, for callers that upload an
    /// RGBA texture instead of a single-channel one.
    pub fn rgba_pixels(&self) -> (r: Vec<u8>)
        requires
            self.pixels@.len() * 4 <= usize::MAX,
        ensures
            r@.len() == self.pixels@.len() * 4,
            forall|i: int|
                0 <= i < self.pixels@.len() ==> r@[4 * i] == self.pixels@[i] && r@[4 * i + 1]
                    == self.pixels@[i] && r@[4 * i + 2] == self.pixels@[i] && r@[4 * i + 3]
                    == self.pixels@[i],
    {
        let len = self.pixels.len();
        let mut out: Vec<u8> = Vec::new();
        let mut i: usize = 0;
        while i < len
            invariant
                i <= len,
                len == self.pixels@.len(),
                len * 4 <= usize::MAX,
                out@.len() == 4 * i,
                forall|j: int|
                    0 <= j < i ==> out@[4 * j] == self.pixels@[j] && out@[4 * j + 1]
                        == self.pixels@[j] && out@[4 * j + 2] == self.pixels@[j] && out@[4 * j + 3]
                        == self.pixels@[j],
            decreases len - i,
        {
            let v = self.pixels[i];
            out.push(v);
            out.push(v);
            out.push(v);
            out.push(v);
            i += 1;
        }
        out
    }

    /// Looks up the cell rectangle of `codepoint`: its grid slot for the
    /// packed range 32..128, and `OutOfRange` for every other codepoint.
    pub fn uv_for(&self, codepoint: u32) -> (r: Result<GlyphRect, AtlasError>)
        requires
            self.wf(),
        ensures
            r is Ok <==> FIRST_CODEPOINT <= codepoint < END_CODEPOINT,
            r matches Ok(rect) ==> rect_matches_slot(
                rect,
                codepoint - FIRST_CODEPOINT,
                self.atlas_size as int,
                self.cell_size as int,
            ),
            r matches Err(e) ==> e == (AtlasError::OutOfRange { codepoint }),
    {
        if codepoint < FIRST_CODEPOINT || codepoint >= END_CODEPOINT {
            Err(AtlasError::OutOfRange { codepoint })
        } else {
            let i = (codepoint - FIRST_CODEPOINT) as usize;
            Ok(self.rects[i])
        }
    }
}

/// The signed offset that centers a span of `dim` pixels in a cell,
/// `floor((cell_size - dim) / 2)`.
fn center_offset_exec(cell_size: usize, dim: usize) -> (r: i128)
    requires
        0 < cell_size,
    ensures
        r == center_offset(cell_size as int, dim as int),
        -(dim as int) <= r <= cell_size as int,
{
    if dim <= cell_size {
        ((cell_size - dim) / 2) as i128
    } else {
        let d = dim - cell_size;
        let q = (d + 1) / 2;
        proof {
            vstd::arithmetic::div_mod::lemma_fundamental_div_mod(d + 1, 2);
            vstd::arithmetic::div_mod::lemma_fundamental_div_mod_converse(
                (cell_size as int) - (dim as int),
                2,
                -(q as int),
                2 * (q as int) - (d as int),
            );
        }
        -(q as i128)
    }
}

/// Copies glyph `g` into the atlas bitmap, centered in the cell whose
/// top-left corner is `(x, y)`; pixels that would land outside the atlas
/// are skipped.
fn blit_glyph(pixels: &mut Vec<u8>, g: &Glyph, x: usize, y: usize, atlas_size: usize, cell_size: usize)
    requires
        glyph_wf(*g),
        0 < cell_size,
        0 < atlas_size,
        atlas_size * atlas_size <= usize::MAX,
        old(pixels)@.len() == atlas_size * atlas_size,
    ensures
        final(pixels)@ == blit(
            old(pixels)@,
            *g,
            x + center_offset(cell_size as int, g.width as int),
            y + center_offset(cell_size as int, g.height as int),
            atlas_size as int,
        ),
{
    let ghost dest0 = pixels@;
    let w = g.width;
    let h = g.height;
    let glen = g.pixels.len();
    let ox: i128 = (x as i128) + center_offset_exec(cell_size, w);
    let oy: i128 = (y as i128) + center_offset_exec(cell_size, h);
    let ghost oxi: int = x + center_offset(cell_size as int, w as int);
    let ghost oyi: int = y + center_offset(cell_size as int, h as int);
    let mut sy: usize = 0;
    proof {
        lemma_blit_upto_zero(dest0, *g, oxi, oyi, atlas_size as int);
    }
    while sy < h
        invariant
            glyph_wf(*g),
            w == g.width,
            h == g.height,
            glen == g.pixels@.len(),
            0 < atlas_size,
            atlas_size * atlas_size <= usize::MAX,
            dest0.len() == atlas_size * atlas_size,
            pixels@.len() == atlas_size * atlas_size,
            ox == oxi,
            oy == oyi,
            -(w as int) <= oxi <= x + cell_size,
            -(h as int) <= oyi <= y + cell_size,
            x <= usize::MAX,
            y <= usize::MAX,
            sy <= h,
            pixels@ == blit_upto(dest0, *g, oxi, oyi, atlas_size as int, sy * w),
        decreases h - sy,
    {
        let mut sx: usize = 0;
        while sx < w
            invariant
                glyph_wf(*g),
                w == g.width,
                h == g.height,
                glen == g.pixels@.len(),
                0 < atlas_size,
                atlas_size * atlas_size <= usize::MAX,
                dest0.len() == atlas_size * atlas_size,
                pixels@.len() == atlas_size * atlas_size,
                ox == oxi,
                oy == oyi,
                -(w as int) <= oxi <= x + cell_size,
                -(h as int) <= oyi <= y + cell_size,
                x <= usize::MAX,
                y <= usize::MAX,
                sy < h,
                sx <= w,
                pixels@ == blit_upto(dest0, *g, oxi, oyi, atlas_size as int, sy * w + sx),
            decreases w - sx,
        {
            proof {
                assert(sy * w + sx < w * h && 0 <= sy * w + sx) by (nonlinear_arith)
                    requires
                        0 <= sx < w,
                        0 <= sy < h,
                {}
            }
            let t: usize = sy * w + sx;
            let v: u8 = g.pixels[t];
            let dx: i128 = ox + (sx as i128);
            let dy: i128 = oy + (sy as i128);
            proof {
                lemma_blit_step(dest0, *g, oxi, oyi, atlas_size as int, sx as int, sy as int);
            }
            if 0 <= dx && dx < atlas_size as i128 && 0 <= dy && dy < atlas_size as i128 {
                proof {
                    lemma_pixel_index_bounds(atlas_size as int, dx as int, dy as int);
                }
                let di: usize = (dy as usize) * atlas_size + (dx as usize);
                pixels.set(di, v);
            }
            sx += 1;
        }
        proof {
            assert(sy * w + w == (sy + 1) * w) by (nonlinear_arith) {}
        }
        sy += 1;
    }
    proof {
        assert(h * w == w * h) by (nonlinear_arith) {}
        lemma_blit_upto_full(dest0, *g, oxi, oyi, atlas_size as int);
    }
}

/// Packs the 96 rasterized glyphs of codepoints 32..128 into a fresh
/// `atlas_size` by `atlas_size` bitmap, in codepoint order, left to right
/// and top to bottom, one `cell_size`-sized cell per glyph with the glyph's
/// bitmap centered in its cell, and records each cell's rectangle.
///
/// Succeeds exactly when the grid has room for all 96 cells; otherwise
/// reports `AtlasError::Overflow` naming the first codepoint whose cell
/// would start a row below the atlas, and the position that cell would have
/// had.
pub fn build_atlas(glyphs: &Vec<Glyph>, atlas_size: usize, cell_size: usize) -> (r: Result<
    GlyphAtlas,
    AtlasError,
>)
    requires
        config_ok(atlas_size as int, cell_size as int),
        glyphs@.len() == GLYPH_COUNT,
        forall|i: int| 0 <= i < GLYPH_COUNT ==> glyph_wf(#[trigger] glyphs@[i]),
    ensures
        r is Ok <==> grid_fits(atlas_size as int, cell_size as int),
        r matches Ok(atlas) ==> atlas.is_build_of(glyphs@, atlas_size, cell_size),
        r matches Err(e) ==> (e matches AtlasError::Overflow { codepoint, x, y }
            && codepoint == overflow_codepoint(atlas_size as int, cell_size as int) && x == 0 && y
            == overflow_y(atlas_size as int, cell_size as int)),
{
    let n: usize = atlas_size / cell_size;
    proof {
        vstd::arithmetic::div_mod::lemma_fundamental_div_mod(atlas_size as int, cell_size as int);
        assert(atlas_size as int == cell_size as int * (n as int));
    }
    if n == 0 {
        proof {
            assert(!grid_fits(atlas_size as int, cell_size as int));
        }
        return Err(AtlasError::Overflow { codepoint: FIRST_CODEPOINT, x: 0, y: cell_size });
    }
    proof {
        assert((n as int) * (cell_size as int) == atlas_size as int) by (nonlinear_arith)
            requires
                atlas_size as int == cell_size as int * (n as int),
        {}
        assert((n as int) * (n as int) <= (atlas_size as int) * (atlas_size as int))
            by (nonlinear_arith)
            requires
                0 < cell_size as int,
                (n as int) * (cell_size as int) == atlas_size as int,
                0 < n as int,
        {}
    }
    let slots: usize = n * n;
    if slots < GLYPH_COUNT {
        return Err(AtlasError::Overflow {
            codepoint: FIRST_CODEPOINT + (slots as u32),
            x: 0,
            y: n * cell_size,
        });
    }
    let total: usize = atlas_size * atlas_size;
    let mut pixels: Vec<u8> = Vec::new();
    let mut k: usize = 0;
    while k < total
        invariant
            k <= total,
            pixels@.len() == k,
            forall|j: int| 0 <= j < k ==> pixels@[j] == 0u8,
        decreases total - k,
    {
        pixels.push(0u8);
        k += 1;
    }
    proof {
        assert(pixels@ =~= atlas_pixels_upto(glyphs@, atlas_size as int, cell_size as int, 0));
    }
    let mut rects: Vec<GlyphRect> = Vec::new();
    let mut i: usize = 0;
    while i < GLYPH_COUNT
        invariant
            config_ok(atlas_size as int, cell_size as int),
            glyphs@.len() == GLYPH_COUNT,
            forall|j: int| 0 <= j < GLYPH_COUNT ==> glyph_wf(#[trigger] glyphs@[j]),
            n == cells_per_row(atlas_size as int, cell_size as int),
            0 < n,
            (n as int) * (cell_size as int) == atlas_size as int,
            GLYPH_COUNT <= (n as int) * (n as int),
            (n as int) * (n as int) <= (atlas_size as int) * (atlas_size as int),
            i <= GLYPH_COUNT,
            pixels@.len() == atlas_size * atlas_size,
            pixels@ == atlas_pixels_upto(glyphs@, atlas_size as int, cell_size as int, i as int),
            rects@.len() == i,
            forall|j: int|
                0 <= j < i ==> rect_matches_slot(
                    #[trigger] rects@[j],
                    j,
                    atlas_size as int,
                    cell_size as int,
                ),
        decreases GLYPH_COUNT - i,
    {
        let row: usize = i / n;
        let col: usize = i % n;
        proof {
            vstd::arithmetic::div_mod::lemma_multiply_divide_lt(
                i as int,
                n as int,
                n as int,
            );
            lemma_slot_in_atlas(i as int, atlas_size as int, cell_size as int);
            assert(0 <= (col as int) * (cell_size as int)) by (nonlinear_arith)
                requires
                    0 <= col as int,
                    0 < cell_size as int,
            {}
            assert(0 <= (row as int) * (cell_size as int)) by (nonlinear_arith)
                requires
                    0 <= row as int,
                    0 < cell_size as int,
            {}
        }
        let x: usize = col * cell_size;
        let y: usize = row * cell_size;
        blit_glyph(&mut pixels, &glyphs[i], x, y, atlas_size, cell_size);
        rects.push(GlyphRect { x_min: x, y_min: y, x_max: x + cell_size, y_max: y + cell_size });
        i += 1;
    }
    Ok(GlyphAtlas { atlas_size, cell_size, pixels, rects })
}

} // verus!
