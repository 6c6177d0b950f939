//! The mathematical model of atlas construction.
//!
//! The atlas is a square bitmap of `atlas_size * atlas_size` bytes, stored
//! row-major with row 0 at the top; the flat index of the pixel at column
//! `px`, row `py` is `py * atlas_size + px`.  Slots are `cell_size`-sized
//! squares assigned to the glyphs in codepoint order, left to right and top
//! to bottom.  A glyph's bitmap is centered in its slot and copied in, with
//! any pixel that would land outside the atlas silently skipped.

use vstd::arithmetic::div_mod::lemma_fundamental_div_mod;
use vstd::arithmetic::div_mod::lemma_fundamental_div_mod_converse;
use vstd::prelude::*;

use crate::glyph::Glyph;
use crate::glyph::GlyphRect;
use crate::glyph::glyph_wf;

verus! {

/// The first packed codepoint: ASCII space.
pub const FIRST_CODEPOINT: u32 = 32;

/// One past the last packed codepoint.
pub const END_CODEPOINT: u32 = 128;

/// How many codepoints are packed: all of 32..128.
pub const GLYPH_COUNT: usize = 96;

/// The configuration the builder accepts: a positive cell size whose
/// multiples tile the atlas side, and a pixel buffer that fits in memory.
pub open spec fn config_ok(atlas_size: int, cell_size: int) -> bool {
    &&& 0 <= atlas_size
    &&& 0 < cell_size
    &&& atlas_size % cell_size == 0
    &&& atlas_size * atlas_size <= usize::MAX
}

/// How many cells fit in one row (and one column) of the atlas.
pub open spec fn cells_per_row(atlas_size: int, cell_size: int) -> int {
    atlas_size / cell_size
}

/// All `GLYPH_COUNT` cells fit in the atlas grid.
pub open spec fn grid_fits(atlas_size: int, cell_size: int) -> bool {
    GLYPH_COUNT <= cells_per_row(atlas_size, cell_size) * cells_per_row(atlas_size, cell_size)
}

/// Left edge of slot `i`; slots are assigned left to right, top to bottom.
pub open spec fn slot_x(i: int, atlas_size: int, cell_size: int) -> int {
    (i % cells_per_row(atlas_size, cell_size)) * cell_size
}

/// Top edge of slot `i`.
pub open spec fn slot_y(i: int, atlas_size: int, cell_size: int) -> int {
    (i / cells_per_row(atlas_size, cell_size)) * cell_size
}

/// Slot `i` covers the pixel at column `px`, row `py`.
pub open spec fn slot_contains(i: int, atlas_size: int, cell_size: int, px: int, py: int) -> bool {
    &&& slot_x(i, atlas_size, cell_size) <= px < slot_x(i, atlas_size, cell_size) + cell_size
    &&& slot_y(i, atlas_size, cell_size) <= py < slot_y(i, atlas_size, cell_size) + cell_size
}

/// Rectangle `r` is exactly slot `i` of the grid.
pub open spec fn rect_matches_slot(r: GlyphRect, i: int, atlas_size: int, cell_size: int) -> bool {
    &&& r.x_min == slot_x(i, atlas_size, cell_size)
    &&& r.y_min == slot_y(i, atlas_size, cell_size)
    &&& r.x_max == slot_x(i, atlas_size, cell_size) + cell_size
    &&& r.y_max == slot_y(i, atlas_size, cell_size) + cell_size
}

/// The offset that centers a span of `dim` pixels inside a cell, floored;
/// negative when the glyph dimension exceeds the cell.
pub open spec fn center_offset(cell_size: int, dim: int) -> int {
    (cell_size - dim) / 2
}

/// Column of the atlas pixel with flat index `k`.
pub open spec fn pixel_col(k: int, atlas_size: int) -> int {
    k % atlas_size
}

/// Row of the atlas pixel with flat index `k`.
pub open spec fn pixel_row(k: int, atlas_size: int) -> int {
    k / atlas_size
}

/// Top-left corner of glyph `i`'s bitmap: its slot corner plus centering.
pub open spec fn glyph_x(g: Glyph, i: int, atlas_size: int, cell_size: int) -> int {
    slot_x(i, atlas_size, cell_size) + center_offset(cell_size, g.width as int)
}

/// Top edge of glyph `i`'s bitmap: its slot corner plus centering.
pub open spec fn glyph_y(g: Glyph, i: int, atlas_size: int, cell_size: int) -> int {
    slot_y(i, atlas_size, cell_size) + center_offset(cell_size, g.height as int)
}

/// The value of atlas pixel `k` once glyph `g` has been copied with its
/// top-left corner at `(ox, oy)` (a corner that may lie outside the atlas):
/// a glyph pixel where one lands on `k`, the previous value elsewhere.
pub open spec fn blit_pixel(
    dest: Seq<u8>,
    g: Glyph,
    ox: int,
    oy: int,
    atlas_size: int,
    k: int,
) -> u8 {
    let sx = pixel_col(k, atlas_size) - ox;
    let sy = pixel_row(k, atlas_size) - oy;
    if 0 <= sx < g.width && 0 <= sy < g.height {
        g.pixels@[sy * g.width + sx]
    } else {
        dest[k]
    }
}

/// Like `blit_pixel`, but with only the first `n` glyph pixels, in row-major
/// order, copied so far.
pub open spec fn blit_pixel_upto(
    dest: Seq<u8>,
    g: Glyph,
    ox: int,
    oy: int,
    atlas_size: int,
    n: int,
    k: int,
) -> u8 {
    let sx = pixel_col(k, atlas_size) - ox;
    let sy = pixel_row(k, atlas_size) - oy;
    if 0 <= sx < g.width && 0 <= sy < g.height && sy * g.width + sx < n {
        g.pixels@[sy * g.width + sx]
    } else {
        dest[k]
    }
}

/// The atlas bitmap after glyph `g` is copied in at `(ox, oy)`, clipped to
/// the atlas bounds.
pub open spec fn blit(dest: Seq<u8>, g: Glyph, ox: int, oy: int, atlas_size: int) -> Seq<u8> {
    Seq::new(dest.len(), |k: int| blit_pixel(dest, g, ox, oy, atlas_size, k))
}

/// The atlas bitmap after the first `n` pixels of glyph `g`, in row-major
/// order, are copied in at `(ox, oy)`.
pub open spec fn blit_upto(
    dest: Seq<u8>,
    g: Glyph,
    ox: int,
    oy: int,
    atlas_size: int,
    n: int,
) -> Seq<u8> {
    Seq::new(dest.len(), |k: int| blit_pixel_upto(dest, g, ox, oy, atlas_size, n, k))
}

/// The atlas bitmap after the first `i` glyphs have been copied in, each
/// centered in its slot; pixels no copy has touched are zero.
pub open spec fn atlas_pixels_upto(
    glyphs: Seq<Glyph>,
    atlas_size: int,
    cell_size: int,
    i: int,
) -> Seq<u8>
    decreases i,
{
    if i <= 0 {
        Seq::new((atlas_size * atlas_size) as nat, |k: int| 0u8)
    } else {
        let g = glyphs[i - 1];
        blit(
            atlas_pixels_upto(glyphs, atlas_size, cell_size, i - 1),
            g,
            glyph_x(g, i - 1, atlas_size, cell_size),
            glyph_y(g, i - 1, atlas_size, cell_size),
            atlas_size,
        )
    }
}

/// The finished atlas bitmap for the whole glyph sequence.
pub open spec fn atlas_pixels(glyphs: Seq<Glyph>, atlas_size: int, cell_size: int) -> Seq<u8> {
    atlas_pixels_upto(glyphs, atlas_size, cell_size, glyphs.len() as int)
}

/// The codepoint construction reports when the grid does not fit: the first
/// one whose slot would start a row below the atlas.
pub open spec fn overflow_codepoint(atlas_size: int, cell_size: int) -> int {
    let n = cells_per_row(atlas_size, cell_size);
    if n == 0 {
        FIRST_CODEPOINT as int
    } else {
        FIRST_CODEPOINT + n * n
    }
}

/// The row position reported with an overflow: the first row that does not
/// fit (the cursor has just wrapped to `x = 0` there).
pub open spec fn overflow_y(atlas_size: int, cell_size: int) -> int {
    let n = cells_per_row(atlas_size, cell_size);
    if n == 0 {
        cell_size
    } else {
        n * cell_size
    }
}

/// An intermediate atlas bitmap always holds one byte per atlas pixel.
pub proof fn lemma_atlas_pixels_upto_len(
    glyphs: Seq<Glyph>,
    atlas_size: int,
    cell_size: int,
    i: int,
)
    requires
        0 <= atlas_size,
    ensures
        atlas_pixels_upto(glyphs, atlas_size, cell_size, i).len() == atlas_size * atlas_size,
    decreases i,
{
    if i > 0 {
        lemma_atlas_pixels_upto_len(glyphs, atlas_size, cell_size, i - 1);
    }
}

/// Decoding the flat index of the pixel at column `px`, row `py` gives back
/// `px` and `py`.
pub proof fn lemma_pixel_decode(atlas_size: int, px: int, py: int)
    requires
        0 < atlas_size,
        0 <= px < atlas_size,
        0 <= py,
    ensures
        pixel_col(py * atlas_size + px, atlas_size) == px,
        pixel_row(py * atlas_size + px, atlas_size) == py,
{
    lemma_fundamental_div_mod_converse(py * atlas_size + px, atlas_size, py, px);
}

/// The flat index of a pixel inside the atlas lies inside the buffer.
pub proof fn lemma_pixel_index_bounds(atlas_size: int, px: int, py: int)
    requires
        0 <= px < atlas_size,
        0 <= py < atlas_size,
    ensures
        0 <= py * atlas_size + px < atlas_size * atlas_size,
{
    assert(0 <= py * atlas_size + px < atlas_size * atlas_size) by (nonlinear_arith)
        requires
            0 <= px < atlas_size,
            0 <= py < atlas_size,
    {}
}

/// A flat index inside the buffer decodes to a column and a row inside the
/// atlas.
pub proof fn lemma_pixel_decode_range(atlas_size: int, k: int)
    requires
        0 < atlas_size,
        0 <= k < atlas_size * atlas_size,
    ensures
        0 <= pixel_col(k, atlas_size) < atlas_size,
        0 <= pixel_row(k, atlas_size) < atlas_size,
        pixel_row(k, atlas_size) * atlas_size + pixel_col(k, atlas_size) == k,
{
    lemma_fundamental_div_mod(k, atlas_size);
    assert(0 <= k % atlas_size < atlas_size) by (nonlinear_arith)
        requires
            0 < atlas_size,
    {}
    assert(0 <= k / atlas_size < atlas_size) by (nonlinear_arith)
        requires
            0 < atlas_size,
            0 <= k < atlas_size * atlas_size,
    {}
    assert(atlas_size * (k / atlas_size) == (k / atlas_size) * atlas_size) by (nonlinear_arith)
    {}
}

/// A slot of the grid lies inside the atlas.
pub proof fn lemma_slot_in_atlas(i: int, atlas_size: int, cell_size: int)
    requires
        config_ok(atlas_size, cell_size),
        0 < cells_per_row(atlas_size, cell_size),
        0 <= i,
        i / cells_per_row(atlas_size, cell_size) < cells_per_row(atlas_size, cell_size),
    ensures
        0 <= slot_x(i, atlas_size, cell_size),
        slot_x(i, atlas_size, cell_size) + cell_size <= atlas_size,
        0 <= slot_y(i, atlas_size, cell_size),
        slot_y(i, atlas_size, cell_size) + cell_size <= atlas_size,
{
    let n = cells_per_row(atlas_size, cell_size);
    lemma_fundamental_div_mod(atlas_size, cell_size);
    assert(atlas_size == n * cell_size);
    assert(0 <= i % n < n) by (nonlinear_arith)
        requires
            0 < n,
            0 <= i,
    {}
    assert(0 <= i % n * cell_size && i % n * cell_size + cell_size <= n * cell_size)
        by (nonlinear_arith)
        requires
            0 < cell_size,
            0 <= i % n < n,
    {}
    assert(0 <= i / n) by (nonlinear_arith)
        requires
            0 < n,
            0 <= i,
    {}
    assert(0 <= i / n * cell_size && i / n * cell_size + cell_size <= n * cell_size)
        by (nonlinear_arith)
        requires
            0 < cell_size,
            0 <= i / n < n,
    {}
}

/// Before any source pixel is copied, the destination is unchanged.
pub proof fn lemma_blit_upto_zero(dest: Seq<u8>, g: Glyph, ox: int, oy: int, atlas_size: int)
    ensures
        blit_upto(dest, g, ox, oy, atlas_size, 0) == dest,
{
    let w = g.width as int;
    assert forall|k: int| 0 <= k < dest.len() implies blit_upto(dest, g, ox, oy, atlas_size, 0)[k]
        == dest[k] by {
        let sx = pixel_col(k, atlas_size) - ox;
        let sy = pixel_row(k, atlas_size) - oy;
        if 0 <= sx && 0 <= sy {
            assert(sy * w + sx >= 0) by (nonlinear_arith)
                requires
                    0 <= sx,
                    0 <= sy,
                    0 <= w,
            {}
        }
    }
    assert(blit_upto(dest, g, ox, oy, atlas_size, 0) =~= dest);
}

/// Once every source pixel is copied, the partial copy is the full one.
pub proof fn lemma_blit_upto_full(dest: Seq<u8>, g: Glyph, ox: int, oy: int, atlas_size: int)
    ensures
        blit_upto(dest, g, ox, oy, atlas_size, g.width * g.height) == blit(
            dest,
            g,
            ox,
            oy,
            atlas_size,
        ),
{
    let w = g.width as int;
    let h = g.height as int;
    assert forall|k: int| 0 <= k < dest.len() implies blit_upto(
        dest,
        g,
        ox,
        oy,
        atlas_size,
        w * h,
    )[k] == blit(dest, g, ox, oy, atlas_size)[k] by {
        let sx = pixel_col(k, atlas_size) - ox;
        let sy = pixel_row(k, atlas_size) - oy;
        if 0 <= sx < w && 0 <= sy < h {
            assert(sy * w + sx < w * h) by (nonlinear_arith)
                requires
                    0 <= sx < w,
                    0 <= sy < h,
            {}
        }
    }
    assert(blit_upto(dest, g, ox, oy, atlas_size, w * h) =~= blit(dest, g, ox, oy, atlas_size));
}

/// Copying one more source pixel either writes exactly its destination
/// index, or, when that destination lies outside the atlas, changes
/// nothing.
pub proof fn lemma_blit_step(
    dest: Seq<u8>,
    g: Glyph,
    ox: int,
    oy: int,
    atlas_size: int,
    sx: int,
    sy: int,
)
    requires
        glyph_wf(g),
        0 < atlas_size,
        dest.len() == atlas_size * atlas_size,
        0 <= sx < g.width,
        0 <= sy < g.height,
    ensures
        0 <= ox + sx < atlas_size && 0 <= oy + sy < atlas_size ==> blit_upto(
            dest,
            g,
            ox,
            oy,
            atlas_size,
            sy * g.width + sx + 1,
        ) == blit_upto(dest, g, ox, oy, atlas_size, sy * g.width + sx).update(
            (oy + sy) * atlas_size + (ox + sx),
            g.pixels@[sy * g.width + sx],
        ),
        !(0 <= ox + sx < atlas_size && 0 <= oy + sy < atlas_size) ==> blit_upto(
            dest,
            g,
            ox,
            oy,
            atlas_size,
            sy * g.width + sx + 1,
        ) == blit_upto(dest, g, ox, oy, atlas_size, sy * g.width + sx),
{
    let w = g.width as int;
    let h = g.height as int;
    let a = atlas_size;
    let t = sy * w + sx;
    assert(0 <= sy * w + sx && sy * w + sx < w * h) by (nonlinear_arith)
        requires
            0 <= sx < w,
            0 <= sy < h,
    {}
    lemma_fundamental_div_mod_converse(t, w, sy, sx);
    if 0 <= ox + sx < a && 0 <= oy + sy < a {
        let d = (oy + sy) * a + (ox + sx);
        lemma_pixel_index_bounds(a, ox + sx, oy + sy);
        lemma_pixel_decode(a, ox + sx, oy + sy);
        let s1 = blit_upto(dest, g, ox, oy, a, t + 1);
        let s2 = blit_upto(dest, g, ox, oy, a, t).update(d, g.pixels@[t]);
        assert forall|k: int| 0 <= k < dest.len() implies s1[k] == s2[k] by {
            lemma_pixel_decode_range(a, k);
            let px = pixel_col(k, a);
            let py = pixel_row(k, a);
            let kx = px - ox;
            let ky = py - oy;
            if k == d {
                assert(px == ox + sx && py == oy + sy);
                assert(kx == sx && ky == sy);
                assert(s1[k] == g.pixels@[t]);
            } else {
                if 0 <= kx < w && 0 <= ky < h && ky * w + kx == t {
                    lemma_fundamental_div_mod_converse(t, w, ky, kx);
                    assert(kx == sx && ky == sy);
                    assert(k == d);
                    assert(false);
                }
            }
        }
        assert(s1 =~= s2);
    } else {
        let s1 = blit_upto(dest, g, ox, oy, a, t + 1);
        let s0 = blit_upto(dest, g, ox, oy, a, t);
        assert forall|k: int| 0 <= k < dest.len() implies s1[k] == s0[k] by {
            lemma_pixel_decode_range(a, k);
            let px = pixel_col(k, a);
            let py = pixel_row(k, a);
            let kx = px - ox;
            let ky = py - oy;
            if 0 <= kx < w && 0 <= ky < h && ky * w + kx == t {
                lemma_fundamental_div_mod_converse(t, w, ky, kx);
                assert(kx == sx && ky == sy);
                assert(0 <= ox + sx < a && 0 <= oy + sy < a);
                assert(false);
            }
        }
        assert(s1 =~= s0);
    }
}

/// Distinct slots share no pixel.
pub proof fn lemma_slots_disjoint(i: int, j: int, atlas_size: int, cell_size: int)
    requires
        config_ok(atlas_size, cell_size),
        0 < cells_per_row(atlas_size, cell_size),
        0 <= i,
        0 <= j,
        i != j,
    ensures
        forall|px: int, py: int|
            !(slot_contains(i, atlas_size, cell_size, px, py) && slot_contains(
                j,
                atlas_size,
                cell_size,
                px,
                py,
            )),
{
    let n = cells_per_row(atlas_size, cell_size);
    assert forall|px: int, py: int|
        !(slot_contains(i, atlas_size, cell_size, px, py) && slot_contains(
            j,
            atlas_size,
            cell_size,
            px,
            py,
        )) by {
        if slot_contains(i, atlas_size, cell_size, px, py) && slot_contains(
            j,
            atlas_size,
            cell_size,
            px,
            py,
        ) {
            if i % n != j % n {
                assert(false) by (nonlinear_arith)
                    requires
                        0 < cell_size,
                        i % n != j % n,
                        i % n * cell_size <= px < i % n * cell_size + cell_size,
                        j % n * cell_size <= px < j % n * cell_size + cell_size,
                {}
            } else if i / n != j / n {
                assert(false) by (nonlinear_arith)
                    requires
                        0 < cell_size,
                        i / n != j / n,
                        i / n * cell_size <= py < i / n * cell_size + cell_size,
                        j / n * cell_size <= py < j / n * cell_size + cell_size,
                {}
            } else {
                lemma_fundamental_div_mod(i, n);
                lemma_fundamental_div_mod(j, n);
            }
        }
    }
}

} // verus!
