//! Atlas construction through a real TrueType font: the font bytes are
//! assembled in memory, parsed with fontdue, and packed into an atlas.
//!
//! The font holds two glyphs: the empty glyph 0 and a filled square
//! outline mapped from codepoint 65, so exactly one cell of the atlas
//! receives coverage.

use glyph_atlas::AtlasError;
use glyph_atlas::atlas_from_font;

fn push_u16(out: &mut Vec<u8>, v: u16) {
    out.extend_from_slice(&v.to_be_bytes());
}

fn push_i16(out: &mut Vec<u8>, v: i16) {
    out.extend_from_slice(&v.to_be_bytes());
}

fn push_u32(out: &mut Vec<u8>, v: u32) {
    out.extend_from_slice(&v.to_be_bytes());
}

/// cmap, format 4, one segment mapping codepoint 65 to glyph 1.
fn cmap_table() -> Vec<u8> {
    let mut t = Vec::new();
    push_u16(&mut t, 0); // version
    push_u16(&mut t, 1); // one encoding record
    push_u16(&mut t, 3); // platform: Windows
    push_u16(&mut t, 1); // encoding: Unicode BMP
    push_u32(&mut t, 12); // subtable offset
    // format 4 subtable: segments [65..=65] and the required [0xFFFF]
    push_u16(&mut t, 4); // format
    push_u16(&mut t, 32); // length
    push_u16(&mut t, 0); // language
    push_u16(&mut t, 4); // segCountX2
    push_u16(&mut t, 4); // searchRange
    push_u16(&mut t, 1); // entrySelector
    push_u16(&mut t, 0); // rangeShift
    push_u16(&mut t, 65); // endCode[0]
    push_u16(&mut t, 0xFFFF); // endCode[1]
    push_u16(&mut t, 0); // reservedPad
    push_u16(&mut t, 65); // startCode[0]
    push_u16(&mut t, 0xFFFF); // startCode[1]
    push_u16(&mut t, 0xFFC0); // idDelta[0]: 65 - 64 = glyph 1
    push_u16(&mut t, 1); // idDelta[1]: 0xFFFF wraps to glyph 0
    push_u16(&mut t, 0); // idRangeOffset[0]
    push_u16(&mut t, 0); // idRangeOffset[1]
    t
}

/// glyf with a single simple glyph: one square contour, 600 units wide.
fn glyf_table() -> Vec<u8> {
    let mut t = Vec::new();
    push_i16(&mut t, 1); // one contour
    push_i16(&mut t, 0); // xMin
    push_i16(&mut t, 0); // yMin
    push_i16(&mut t, 600); // xMax
    push_i16(&mut t, 600); // yMax
    push_u16(&mut t, 3); // endPtsOfContours
    push_u16(&mut t, 0); // no instructions
    t.extend_from_slice(&[1, 1, 1, 1]); // four on-curve points, long deltas
    push_i16(&mut t, 0); // x deltas
    push_i16(&mut t, 600);
    push_i16(&mut t, 0);
    push_i16(&mut t, -600);
    push_i16(&mut t, 0); // y deltas
    push_i16(&mut t, 0);
    push_i16(&mut t, 600);
    push_i16(&mut t, -600);
    t
}

fn head_table() -> Vec<u8> {
    let mut t = Vec::new();
    push_u32(&mut t, 0x00010000); // version
    push_u32(&mut t, 0); // font revision
    push_u32(&mut t, 0); // checksum adjustment
    push_u32(&mut t, 0x5F0F3CF5); // magic
    push_u16(&mut t, 0); // flags
    push_u16(&mut t, 1000); // units per em
    t.extend_from_slice(&[0; 16]); // created + modified
    push_i16(&mut t, 0); // xMin
    push_i16(&mut t, 0); // yMin
    push_i16(&mut t, 600); // xMax
    push_i16(&mut t, 600); // yMax
    push_u16(&mut t, 0); // mac style
    push_u16(&mut t, 0); // lowest rec PPEM
    push_i16(&mut t, 0); // font direction hint
    push_u16(&mut t, 0); // indexToLocFormat: short
    push_i16(&mut t, 0); // glyph data format
    t
}

fn hhea_table() -> Vec<u8> {
    let mut t = Vec::new();
    push_u32(&mut t, 0x00010000); // version
    push_i16(&mut t, 800); // ascender
    push_i16(&mut t, -200); // descender
    push_i16(&mut t, 0); // line gap
    t.extend_from_slice(&[0; 24]);
    push_u16(&mut t, 0); // no horizontal metrics
    t
}

/// loca, short format, three entries: glyph 0 empty, glyph 1 the square.
fn loca_table(glyf_len: usize) -> Vec<u8> {
    let mut t = Vec::new();
    push_u16(&mut t, 0);
    push_u16(&mut t, 0);
    push_u16(&mut t, (glyf_len / 2) as u16);
    t
}

fn maxp_table() -> Vec<u8> {
    let mut t = Vec::new();
    push_u32(&mut t, 0x00005000); // version 0.5
    push_u16(&mut t, 2); // two glyphs
    t
}

/// Assembles the font: an sfnt directory over the six tables, sorted by tag.
fn minimal_font_bytes() -> Vec<u8> {
    let tables: Vec<(&[u8; 4], Vec<u8>)> = vec![
        (b"cmap", cmap_table()),
        (b"glyf", glyf_table()),
        (b"head", head_table()),
        (b"hhea", hhea_table()),
        (b"loca", loca_table(glyf_table().len())),
        (b"maxp", maxp_table()),
    ];
    let mut font = Vec::new();
    push_u32(&mut font, 0x00010000); // sfnt version
    push_u16(&mut font, tables.len() as u16);
    push_u16(&mut font, 64); // searchRange
    push_u16(&mut font, 2); // entrySelector
    push_u16(&mut font, 32); // rangeShift
    let mut offset = 12 + 16 * tables.len();
    for (tag, data) in &tables {
        font.extend_from_slice(*tag);
        push_u32(&mut font, 0); // checksum, not validated
        push_u32(&mut font, offset as u32);
        push_u32(&mut font, data.len() as u32);
        offset += data.len();
    }
    for (_, data) in &tables {
        font.extend_from_slice(data);
    }
    font
}

fn load_font() -> fontdue::Font {
    fontdue::Font::from_bytes(minimal_font_bytes(), fontdue::FontSettings::default()).unwrap()
}

#[test]
fn font_atlas_covers_only_the_mapped_cell() {
    let font = load_font();
    let atlas = atlas_from_font(&font, 512, 32, 32).unwrap();
    assert_eq!(atlas.pixels.len(), 512 * 512);
    // codepoint 65 is glyph 33 of the packed range: row 2, column 1
    let rect = atlas.uv_for(65).unwrap();
    assert_eq!((rect.x_min, rect.y_min, rect.x_max, rect.y_max), (32, 64, 64, 96));
    // the square, 600 of 1000 units at 32 px per em, is about 20 pixels
    // wide and centered, so the cell's center pixel has full coverage
    assert_eq!(atlas.pixels[80 * 512 + 48], 255);
    // every other codepoint maps to the empty glyph: no coverage outside
    // codepoint 65's cell
    for py in 0..512 {
        for px in 0..512 {
            let inside = (32..64).contains(&px) && (64..96).contains(&py);
            if !inside {
                assert_eq!(atlas.pixels[py * 512 + px], 0, "pixel at ({px}, {py})");
            }
        }
    }
}

#[test]
fn font_atlas_build_is_repeatable() {
    let font = load_font();
    let a1 = atlas_from_font(&font, 512, 32, 32).unwrap();
    let a2 = atlas_from_font(&font, 512, 32, 32).unwrap();
    assert_eq!(a1.pixels, a2.pixels);
    assert_eq!(a1.rects, a2.rects);
}

#[test]
fn font_atlas_overflow_matches_geometry() {
    let font = load_font();
    let err = atlas_from_font(&font, 64, 32, 32).unwrap_err();
    assert_eq!(err, AtlasError::Overflow { codepoint: 36, x: 0, y: 64 });
}
