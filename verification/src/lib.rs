//! A fixed-size glyph atlas builder.
//!
//! The library packs the rasterized glyphs of the printable ASCII range
//! (codepoints 32 through 127) into one square bitmap, left to right and top
//! to bottom, one fixed-size square cell per glyph, and records for each
//! codepoint the pixel rectangle of its cell.  Normalized texture
//! coordinates are these pixel coordinates divided by the atlas side length.
//!
//! Row 0 of the atlas bitmap is the top row; a consumer whose texture
//! origin is the bottom-left corner can swap the vertical edges of a
//! rectangle with [`GlyphRect::flip_v`].

pub mod atlas;
pub mod font;
pub mod glyph;
pub mod laws;
pub mod model;

pub use atlas::GlyphAtlas;
pub use atlas::build_atlas;
pub use font::atlas_from_font;
pub use glyph::AtlasError;
pub use glyph::Glyph;
pub use glyph::GlyphRect;
