//! Rasterizing the packed codepoint range with a TrueType font.
//!
//! The font itself is handled by fontdue: the caller parses the font bytes
//! with `fontdue::Font::from_bytes` and hands the loaded font in.  Only the
//! rasterizer call is trusted; everything downstream of the returned
//! bitmaps is `build_atlas`, verified for every glyph shape.

use vstd::prelude::*;

use crate::atlas::GlyphAtlas;
use crate::atlas::build_atlas;
use crate::glyph::AtlasError;
use crate::glyph::Glyph;
use crate::glyph::glyph_wf;
use crate::model::END_CODEPOINT;
use crate::model::FIRST_CODEPOINT;
use crate::model::GLYPH_COUNT;
use crate::model::atlas_pixels;
use crate::model::config_ok;
use crate::model::grid_fits;
use crate::model::overflow_codepoint;
use crate::model::overflow_y;

verus! {

/// fontdue's font handle, opaque to verification; the caller creates one
/// with `fontdue::Font::from_bytes`.
#[verifier::external_type_specification]
#[verifier::external_body]
pub struct ExFont(fontdue::Font);

/// Relies on fontdue::Font::rasterize: for a positive pixel size it returns
/// glyph metrics and a coverage bitmap of exactly `width * height` bytes,
/// row-major from the glyph's top-left corner; a codepoint the font lacks
/// falls back to the font's default glyph.  The codepoint bound keeps the
/// conversion to `char` exact.
#[verifier::external_body]
fn rasterize_glyph(font: &fontdue::Font, codepoint: u32, px: u16) -> (g: Glyph)
    requires
        codepoint < 128,
        0 < px,
    ensures
        glyph_wf(g),
{
    let (metrics, pixels) = font.rasterize((codepoint as u8) as char, px.into());
    Glyph { width: metrics.width, height: metrics.height, pixels }
}

/// Builds the atlas for `font`: rasterizes every codepoint of 32..128 at
/// `px` pixels per em, in codepoint order, and packs the bitmaps with
/// `build_atlas`.
///
/// Success depends only on the geometry: the call returns `Ok` exactly when
/// the grid has room for all 96 cells, and on overflow it reports the same
/// error `build_atlas` does.  Whatever bitmaps the rasterizer produced, the
/// result is a well-formed atlas built from 96 well-formed glyphs.
pub fn atlas_from_font(font: &fontdue::Font, atlas_size: usize, cell_size: usize, px: u16) -> (r:
    Result<GlyphAtlas, AtlasError>)
    requires
        config_ok(atlas_size as int, cell_size as int),
        0 < px,
    ensures
        r is Ok <==> grid_fits(atlas_size as int, cell_size as int),
        r matches Ok(atlas) ==> atlas.wf() && atlas.atlas_size == atlas_size && atlas.cell_size
            == cell_size,
        r matches Ok(atlas) ==> (exists|gs: Seq<Glyph>|
            gs.len() == GLYPH_COUNT && (forall|i: int|
                0 <= i < GLYPH_COUNT ==> glyph_wf(#[trigger] gs[i])) && atlas.pixels@
                == #[trigger] atlas_pixels(gs, atlas_size as int, cell_size as int)),
        r matches Err(e) ==> (e matches AtlasError::Overflow { codepoint, x, y } && codepoint
            == overflow_codepoint(atlas_size as int, cell_size as int) && x == 0 && y == overflow_y(
            atlas_size as int,
            cell_size as int,
        )),
{
    let mut glyphs: Vec<Glyph> = Vec::new();
    let mut cp: u32 = FIRST_CODEPOINT;
    while cp < END_CODEPOINT
        invariant
            FIRST_CODEPOINT <= cp <= END_CODEPOINT,
            glyphs@.len() == cp - FIRST_CODEPOINT,
            forall|i: int| 0 <= i < glyphs@.len() ==> glyph_wf(#[trigger] glyphs@[i]),
            0 < px,
        decreases END_CODEPOINT - cp,
    {
        let g = rasterize_glyph(font, cp, px);
        glyphs.push(g);
        cp += 1;
    }
    let r = build_atlas(&glyphs, atlas_size, cell_size);
    proof {
        if r is Ok {
            assert(r->Ok_0.pixels@ == atlas_pixels(
                glyphs@,
                atlas_size as int,
                cell_size as int,
            ));
        }
    }
    r
}

} // verus!
