//! Composition of Hangul syllable glyphs from per-jamo sprite sheets.
//!
//! Every syllable is a triple of an initial, a medial and a final jamo. For
//! each of the three slots an ordered rule list picks the drawn variant that
//! fits the syllable, the picked cells are thresholded to bits and merged by
//! bitwise OR into one 32-byte glyph, and the glyphs are laid out as text
//! streams in the canonical order of the syllables.

pub mod bitmap;
pub mod combinator_config;
pub mod compose;
pub mod emit;
pub mod hangul;
pub mod pattern;
pub mod precedence;
pub mod sprite;
pub mod text;
pub mod workspace;
