//! Glyph-art transcoder: turns a raster image into a textual rendering made
//! of palette glyphs, stores it in a compressed container together with the
//! transform parameters, and reads such containers back as text.
//!
//! The pipeline is a fixed chain: decode the image into an RGB pixel grid,
//! resize it (nearest neighbour), reduce it to luminance, sharpen, adjust
//! contrast, map each luminance value to a glyph, append a textual parameter
//! trailer, and compress the whole byte sequence. Opening reverses the
//! container: decompress and validate the bytes as UTF-8 text.

pub mod container;
pub mod errors;
pub mod glyph;
pub mod grid;
pub mod params;
pub mod pipeline;
pub mod source;
pub mod transform;
