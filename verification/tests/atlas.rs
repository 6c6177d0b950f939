//! Behaviour of atlas construction and rectangle lookup on concrete inputs.

use glyph_atlas::AtlasError;
use glyph_atlas::Glyph;
use glyph_atlas::build_atlas;

fn blank_glyph() -> Glyph {
    Glyph { width: 0, height: 0, pixels: Vec::new() }
}

fn filled_glyph(width: usize, height: usize, value: u8) -> Glyph {
    Glyph { width, height, pixels: vec![value; width * height] }
}

fn blank_glyphs() -> Vec<Glyph> {
    (0..96).map(|_| blank_glyph()).collect()
}

#[test]
fn packing_positions_512_32() {
    let atlas = build_atlas(&blank_glyphs(), 512, 32).unwrap();
    // 512 / 32 = 16 glyphs per row: codepoint 32 is the first cell, 47 the
    // sixteenth, 48 wraps to the second row.
    let first = atlas.uv_for(32).unwrap();
    assert_eq!((first.x_min, first.y_min, first.x_max, first.y_max), (0, 0, 32, 32));
    let sixteenth = atlas.uv_for(47).unwrap();
    assert_eq!((sixteenth.x_min, sixteenth.y_min), (480, 0));
    assert_eq!((sixteenth.x_max, sixteenth.y_max), (512, 32));
    let wrapped = atlas.uv_for(48).unwrap();
    assert_eq!((wrapped.x_min, wrapped.y_min, wrapped.x_max, wrapped.y_max), (0, 32, 32, 64));
}

#[test]
fn last_codepoint_position() {
    let atlas = build_atlas(&blank_glyphs(), 512, 32).unwrap();
    // codepoint 127 is glyph 95: row 95 / 16 = 5, column 95 % 16 = 15
    let rect = atlas.uv_for(127).unwrap();
    assert_eq!((rect.x_min, rect.y_min, rect.x_max, rect.y_max), (480, 160, 512, 192));
}

#[test]
fn overflow_64_32() {
    // only 2 x 2 cells fit: the fifth glyph needs the row at y = 64
    let err = build_atlas(&blank_glyphs(), 64, 32).unwrap_err();
    assert_eq!(err, AtlasError::Overflow { codepoint: 36, x: 0, y: 64 });
}

#[test]
fn overflow_zero_atlas() {
    // no cell fits at all: the very first glyph overflows
    let err = build_atlas(&blank_glyphs(), 0, 32).unwrap_err();
    assert_eq!(err, AtlasError::Overflow { codepoint: 32, x: 0, y: 32 });
}

#[test]
fn deterministic_build() {
    let mut glyphs1 = blank_glyphs();
    glyphs1[0] = filled_glyph(10, 6, 200);
    glyphs1[33] = filled_glyph(3, 3, 17);
    let mut glyphs2 = blank_glyphs();
    glyphs2[0] = filled_glyph(10, 6, 200);
    glyphs2[33] = filled_glyph(3, 3, 17);
    let a1 = build_atlas(&glyphs1, 512, 32).unwrap();
    let a2 = build_atlas(&glyphs2, 512, 32).unwrap();
    assert_eq!(a1.pixels, a2.pixels);
    assert_eq!(a1.rects, a2.rects);
}

#[test]
fn centering_small_glyph() {
    let mut glyphs = blank_glyphs();
    glyphs[0] = filled_glyph(10, 6, 200);
    let atlas = build_atlas(&glyphs, 512, 32).unwrap();
    // offsets floor((32 - 10) / 2) = 11 and floor((32 - 6) / 2) = 13
    for sy in 0..6 {
        for sx in 0..10 {
            assert_eq!(atlas.pixels[(13 + sy) * 512 + 11 + sx], 200);
        }
    }
    // just outside the centered footprint the atlas stays blank
    assert_eq!(atlas.pixels[12 * 512 + 11], 0);
    assert_eq!(atlas.pixels[13 * 512 + 10], 0);
    assert_eq!(atlas.pixels[13 * 512 + 21], 0);
    assert_eq!(atlas.pixels[19 * 512 + 11], 0);
}

#[test]
fn centering_odd_remainder_floors() {
    let mut glyphs = blank_glyphs();
    glyphs[0] = filled_glyph(5, 7, 9);
    let atlas = build_atlas(&glyphs, 512, 32).unwrap();
    // offsets floor((32 - 5) / 2) = 13 and floor((32 - 7) / 2) = 12
    assert_eq!(atlas.pixels[12 * 512 + 13], 9);
    assert_eq!(atlas.pixels[12 * 512 + 12], 0);
    assert_eq!(atlas.pixels[11 * 512 + 13], 0);
    assert_eq!(atlas.pixels[(12 + 6) * 512 + 13 + 4], 9);
}

#[test]
fn oversized_glyph_is_clipped_not_rejected() {
    let mut glyphs = blank_glyphs();
    // a 40 x 40 glyph in a 32-pixel cell: offset floor((32 - 40) / 2) = -4,
    // so source pixel (4, 4) lands on the atlas corner (0, 0) and the rest
    // spills or is skipped, without failing the build
    glyphs[0] = filled_glyph(40, 40, 255);
    let atlas = build_atlas(&glyphs, 512, 32).unwrap();
    assert_eq!(atlas.pixels[0], 255);
    // the footprint spills past the cell into x = 32..36 of row 0
    assert_eq!(atlas.pixels[35], 255);
    assert_eq!(atlas.pixels[36], 0);
}

#[test]
fn second_glyph_lands_in_second_cell() {
    let mut glyphs = blank_glyphs();
    glyphs[1] = filled_glyph(2, 2, 77);
    let atlas = build_atlas(&glyphs, 512, 32).unwrap();
    // cell of codepoint 33 starts at x = 32; offsets are (32 - 2) / 2 = 15
    assert_eq!(atlas.pixels[15 * 512 + 32 + 15], 77);
    assert_eq!(atlas.pixels[15 * 512 + 15], 0);
}

#[test]
fn uv_for_out_of_range() {
    let atlas = build_atlas(&blank_glyphs(), 512, 32).unwrap();
    assert_eq!(atlas.uv_for(31), Err(AtlasError::OutOfRange { codepoint: 31 }));
    assert_eq!(atlas.uv_for(128), Err(AtlasError::OutOfRange { codepoint: 128 }));
    assert_eq!(atlas.uv_for(0), Err(AtlasError::OutOfRange { codepoint: 0 }));
    assert!(atlas.uv_for(127).is_ok());
    assert!(atlas.uv_for(32).is_ok());
}

#[test]
fn normalized_rects_lie_in_unit_square() {
    let atlas = build_atlas(&blank_glyphs(), 512, 32).unwrap();
    for cp in 32..128 {
        let rect = atlas.uv_for(cp).unwrap();
        let u1 = rect.x_min as f32 / 512.0;
        let v1 = rect.y_min as f32 / 512.0;
        let u2 = rect.x_max as f32 / 512.0;
        let v2 = rect.y_max as f32 / 512.0;
        assert!(0.0 <= u1 && u1 < u2 && u2 <= 1.0);
        assert!(0.0 <= v1 && v1 < v2 && v2 <= 1.0);
    }
}

#[test]
fn rects_are_pairwise_disjoint() {
    let atlas = build_atlas(&blank_glyphs(), 512, 32).unwrap();
    let rects: Vec<_> = (32..128).map(|cp| atlas.uv_for(cp).unwrap()).collect();
    for i in 0..rects.len() {
        for j in 0..rects.len() {
            if i != j {
                let a = &rects[i];
                let b = &rects[j];
                let overlap_x = a.x_min < b.x_max && b.x_min < a.x_max;
                let overlap_y = a.y_min < b.y_max && b.y_min < a.y_max;
                assert!(!(overlap_x && overlap_y));
            }
        }
    }
}

#[test]
fn flip_v_swaps_vertical_edges() {
    let atlas = build_atlas(&blank_glyphs(), 512, 32).unwrap();
    let rect = atlas.uv_for(48).unwrap();
    let flipped = rect.flip_v();
    assert_eq!(flipped.x_min, rect.x_min);
    assert_eq!(flipped.x_max, rect.x_max);
    assert_eq!(flipped.y_min, rect.y_max);
    assert_eq!(flipped.y_max, rect.y_min);
}

#[test]
fn rgba_expansion_duplicates_channels() {
    let mut glyphs = blank_glyphs();
    glyphs[0] = filled_glyph(10, 6, 200);
    let atlas = build_atlas(&glyphs, 512, 32).unwrap();
    let rgba = atlas.rgba_pixels();
    assert_eq!(rgba.len(), 4 * 512 * 512);
    for (i, &v) in atlas.pixels.iter().enumerate() {
        assert_eq!(rgba[4 * i], v);
        assert_eq!(rgba[4 * i + 1], v);
        assert_eq!(rgba[4 * i + 2], v);
        assert_eq!(rgba[4 * i + 3], v);
    }
    assert_eq!(rgba[4 * (13 * 512 + 11)], 200);
}

#[test]
fn glyph_from_parts_checks_length() {
    assert!(Glyph::from_parts(3, 2, vec![0; 6]).is_some());
    assert!(Glyph::from_parts(3, 2, vec![0; 5]).is_none());
    assert!(Glyph::from_parts(0, 0, Vec::new()).is_some());
    assert!(Glyph::from_parts(0, 5, vec![1]).is_none());
    let g = Glyph::from_parts(2, 2, vec![1, 2, 3, 4]).unwrap();
    assert_eq!((g.width, g.height), (2, 2));
    assert_eq!(g.pixels, vec![1, 2, 3, 4]);
}
