//! Text rendering with font fallback: per-character font selection across an
//! ordered chain of font sets, horizontal layout from font metrics, and the
//! placement of glyph coverage masks on a destination image.
//!
//! Font programs themselves (lookup of glyphs, outlines, rasterization) are
//! opaque to this library: callers hand it the integer metrics and coverage
//! values that a font program reports, and the library decides where every
//! glyph goes and which destination pixels are touched.
pub mod font;
pub mod layout;
pub mod metrics;
pub mod raster;
pub mod style;

pub use font::{classify, Face, FontCollection, ImageFont, Slant, WeightClass};
pub use layout::{GlyphInfo, PositionedGlyph, RasterRect};
pub use metrics::{get_glyph_width, Metrics, SIZE_SCALE};
pub use raster::{draw_glyphs, CoverageMask, Plot};
pub use style::FontStyle;
