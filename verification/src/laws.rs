//! The guarantees of a finished atlas, stated and proved on their own:
//! every packed rectangle lies inside the unit square, distinct
//! rectangles are disjoint, construction is deterministic, and glyphs
//! that fit their cell are stored exactly at their centered position.

use vstd::arithmetic::div_mod::lemma_div_nonincreasing;
use vstd::arithmetic::div_mod::lemma_div_pos_is_pos;
use vstd::arithmetic::div_mod::lemma_multiply_divide_lt;
use vstd::prelude::*;

use crate::atlas::GlyphAtlas;
use crate::glyph::Glyph;
use crate::glyph::glyph_wf;
use crate::glyph::rect_contains;
use crate::model::GLYPH_COUNT;
use crate::model::atlas_pixels;
use crate::model::atlas_pixels_upto;
use crate::model::blit_pixel;
use crate::model::cells_per_row;
use crate::model::center_offset;
use crate::model::config_ok;
use crate::model::glyph_x;
use crate::model::glyph_y;
use crate::model::grid_fits;
use crate::model::lemma_atlas_pixels_upto_len;
use crate::model::lemma_pixel_decode;
use crate::model::lemma_pixel_index_bounds;
use crate::model::lemma_slot_in_atlas;
use crate::model::lemma_slots_disjoint;
use crate::model::slot_contains;
use crate::model::slot_x;
use crate::model::slot_y;

verus! {

/// A grid that holds all the glyphs has at least one cell per row.
proof fn lemma_grid_positive(atlas_size: int, cell_size: int)
    requires
        config_ok(atlas_size, cell_size),
        grid_fits(atlas_size, cell_size),
    ensures
        0 < cells_per_row(atlas_size, cell_size),
{
    lemma_div_pos_is_pos(atlas_size, cell_size);
    let n = cells_per_row(atlas_size, cell_size);
    if n == 0 {
        assert(n * n == 0) by (nonlinear_arith)
            requires
                n == 0,
        {}
    }
}

/// Every packed codepoint's rectangle lies inside the atlas with a positive
/// extent on each axis: `0 <= x_min < x_max <= atlas_size`, and likewise
/// vertically.  Divided by the atlas side length, the rectangle's
/// normalized texture coordinates therefore lie in `[0, 1]`, minimum
/// strictly below maximum.
pub proof fn lemma_rect_in_unit_square(atlas: GlyphAtlas, i: int)
    requires
        atlas.wf(),
        0 <= i < GLYPH_COUNT,
    ensures
        0 <= atlas.rects@[i].x_min < atlas.rects@[i].x_max <= atlas.atlas_size,
        0 <= atlas.rects@[i].y_min < atlas.rects@[i].y_max <= atlas.atlas_size,
{
    let a = atlas.atlas_size as int;
    let c = atlas.cell_size as int;
    let n = cells_per_row(a, c);
    lemma_grid_positive(a, c);
    lemma_multiply_divide_lt(i, n, n);
    lemma_slot_in_atlas(i, a, c);
}

/// Distinct packed codepoints' rectangles cover disjoint pixel sets.
pub proof fn lemma_rects_disjoint(atlas: GlyphAtlas, i: int, j: int)
    requires
        atlas.wf(),
        0 <= i < GLYPH_COUNT,
        0 <= j < GLYPH_COUNT,
        i != j,
    ensures
        forall|px: int, py: int|
            !(rect_contains(atlas.rects@[i], px, py) && rect_contains(atlas.rects@[j], px, py)),
{
    let a = atlas.atlas_size as int;
    let c = atlas.cell_size as int;
    lemma_grid_positive(a, c);
    lemma_slots_disjoint(i, j, a, c);
    assert forall|px: int, py: int|
        !(rect_contains(atlas.rects@[i], px, py) && rect_contains(atlas.rects@[j], px, py)) by {
        if rect_contains(atlas.rects@[i], px, py) && rect_contains(atlas.rects@[j], px, py) {
            assert(slot_contains(i, a, c, px, py));
            assert(slot_contains(j, a, c, px, py));
        }
    }
}

/// Atlas construction is deterministic: two atlases built from the same
/// glyph sequence at the same configuration hold identical pixel bytes and
/// identical rectangle tables.
pub proof fn lemma_build_deterministic(
    a1: GlyphAtlas,
    a2: GlyphAtlas,
    glyphs: Seq<Glyph>,
    atlas_size: usize,
    cell_size: usize,
)
    requires
        a1.is_build_of(glyphs, atlas_size, cell_size),
        a2.is_build_of(glyphs, atlas_size, cell_size),
    ensures
        a1.pixels@ == a2.pixels@,
        a1.rects@ == a2.rects@,
{
    assert forall|i: int| 0 <= i < GLYPH_COUNT implies a1.rects@[i] == a2.rects@[i] by {}
    assert(a1.rects@ =~= a2.rects@);
}

/// A glyph no larger than its cell has its whole footprint inside its slot.
proof fn lemma_footprint_in_slot(g: Glyph, j: int, atlas_size: int, cell_size: int)
    requires
        config_ok(atlas_size, cell_size),
        g.width <= cell_size,
        g.height <= cell_size,
    ensures
        slot_x(j, atlas_size, cell_size) <= glyph_x(g, j, atlas_size, cell_size),
        glyph_x(g, j, atlas_size, cell_size) + g.width <= slot_x(j, atlas_size, cell_size)
            + cell_size,
        slot_y(j, atlas_size, cell_size) <= glyph_y(g, j, atlas_size, cell_size),
        glyph_y(g, j, atlas_size, cell_size) + g.height <= slot_y(j, atlas_size, cell_size)
            + cell_size,
{
    lemma_div_pos_is_pos(cell_size - g.width, 2);
    lemma_div_nonincreasing(cell_size - g.width, 2);
    lemma_div_pos_is_pos(cell_size - g.height, 2);
    lemma_div_nonincreasing(cell_size - g.height, 2);
}

/// A pixel of slot `i` is not touched by the copies of glyphs `i + 1`
/// through `m - 1`, provided every glyph fits its cell.
proof fn lemma_slot_pixel_untouched_after(
    glyphs: Seq<Glyph>,
    atlas_size: int,
    cell_size: int,
    i: int,
    px: int,
    py: int,
    m: int,
)
    requires
        config_ok(atlas_size, cell_size),
        grid_fits(atlas_size, cell_size),
        glyphs.len() == GLYPH_COUNT,
        forall|j: int| 0 <= j < GLYPH_COUNT ==> glyph_wf(#[trigger] glyphs[j]),
        forall|j: int|
            0 <= j < GLYPH_COUNT ==> (#[trigger] glyphs[j]).width <= cell_size && glyphs[j].height
                <= cell_size,
        0 <= i < GLYPH_COUNT,
        slot_contains(i, atlas_size, cell_size, px, py),
        i < m <= GLYPH_COUNT,
    ensures
        atlas_pixels_upto(glyphs, atlas_size, cell_size, m)[py * atlas_size + px]
            == atlas_pixels_upto(glyphs, atlas_size, cell_size, i + 1)[py * atlas_size + px],
    decreases m,
{
    let a = atlas_size;
    let c = cell_size;
    let n = cells_per_row(a, c);
    lemma_grid_positive(a, c);
    if m > i + 1 {
        lemma_slot_pixel_untouched_after(glyphs, a, c, i, px, py, m - 1);
        let j = m - 1;
        let g = glyphs[j];
        lemma_multiply_divide_lt(i, n, n);
        lemma_slot_in_atlas(i, a, c);
        lemma_multiply_divide_lt(j, n, n);
        lemma_slot_in_atlas(j, a, c);
        lemma_footprint_in_slot(g, j, a, c);
        let k = py * a + px;
        lemma_pixel_index_bounds(a, px, py);
        lemma_pixel_decode(a, px, py);
        lemma_atlas_pixels_upto_len(glyphs, a, c, m - 1);
        let ox = glyph_x(g, j, a, c);
        let oy = glyph_y(g, j, a, c);
        assert(atlas_pixels_upto(glyphs, a, c, m)[k] == blit_pixel(
            atlas_pixels_upto(glyphs, a, c, m - 1),
            g,
            ox,
            oy,
            a,
            k,
        ));
        if 0 <= px - ox < g.width && 0 <= py - oy < g.height {
            assert(slot_contains(j, a, c, px, py));
            lemma_slots_disjoint(i, j, a, c);
            assert(false);
        }
    }
}

/// Centering round trip: when every glyph's bitmap fits its cell, the
/// finished atlas holds each glyph's bitmap unchanged, its top-left corner
/// at the cell corner plus the centering offset
/// `floor((cell_size - dim) / 2)` on each axis.
pub proof fn lemma_centered_glyph_round_trip(
    glyphs: Seq<Glyph>,
    atlas_size: int,
    cell_size: int,
    i: int,
    sx: int,
    sy: int,
)
    requires
        config_ok(atlas_size, cell_size),
        grid_fits(atlas_size, cell_size),
        glyphs.len() == GLYPH_COUNT,
        forall|j: int| 0 <= j < GLYPH_COUNT ==> glyph_wf(#[trigger] glyphs[j]),
        forall|j: int|
            0 <= j < GLYPH_COUNT ==> (#[trigger] glyphs[j]).width <= cell_size && glyphs[j].height
                <= cell_size,
        0 <= i < GLYPH_COUNT,
        0 <= sx < glyphs[i].width,
        0 <= sy < glyphs[i].height,
    ensures
        glyph_x(glyphs[i], i, atlas_size, cell_size) == slot_x(i, atlas_size, cell_size)
            + center_offset(cell_size, glyphs[i].width as int),
        atlas_pixels(glyphs, atlas_size, cell_size)[(glyph_y(glyphs[i], i, atlas_size, cell_size)
            + sy) * atlas_size + glyph_x(glyphs[i], i, atlas_size, cell_size) + sx] == glyphs[
            i
        ].pixels@[sy * glyphs[i].width + sx],
{
    let a = atlas_size;
    let c = cell_size;
    let n = cells_per_row(a, c);
    let g = glyphs[i];
    let ox = glyph_x(g, i, a, c);
    let oy = glyph_y(g, i, a, c);
    let px = ox + sx;
    let py = oy + sy;
    lemma_grid_positive(a, c);
    lemma_multiply_divide_lt(i, n, n);
    lemma_slot_in_atlas(i, a, c);
    lemma_footprint_in_slot(g, i, a, c);
    assert(slot_contains(i, a, c, px, py));
    let k = py * a + px;
    lemma_pixel_index_bounds(a, px, py);
    lemma_pixel_decode(a, px, py);
    lemma_atlas_pixels_upto_len(glyphs, a, c, i);
    assert(atlas_pixels_upto(glyphs, a, c, i + 1)[k] == blit_pixel(
        atlas_pixels_upto(glyphs, a, c, i),
        g,
        ox,
        oy,
        a,
        k,
    ));
    assert(blit_pixel(atlas_pixels_upto(glyphs, a, c, i), g, ox, oy, a, k) == g.pixels@[sy
        * g.width + sx]);
    lemma_slot_pixel_untouched_after(glyphs, a, c, i, px, py, GLYPH_COUNT as int);
}

} // verus!
