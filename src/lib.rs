//! Glyph variation engine for TrueType variable fonts.
//!
//! Given a glyph outline, the `gvar` variation data of its font and a point in
//! the font's normalized design space, the engine computes the per-point deltas
//! that turn the default outline into the instance outline, and applies them.
//! All arithmetic is done on integers: region scalars carry 30 fractional bits
//! and deltas are 16.16 fixed-point values.
//!
//! - `numeric`: 2.14 values, fixed-point rounding and scaling.
//! - `coordinates`: tuples of axis coordinates.
//! - `glyph`, `gvar`, `metrics`: the data the engine reads.
//! - `scalar`: the scalar of each region at an instance.
//! - `infer`: deltas of unreferenced points of simple glyphs.
//! - `variation`: the delta of every point of a glyph.
//! - `apply`: moving a glyph by its deltas.
//! - `bbox`: bounding boxes, composite glyphs included.
//! - `laws`: properties that relate the functions above.

pub mod apply;
pub mod bbox;
pub mod coordinates;
pub mod error;
pub mod glyph;
pub mod gvar;
pub mod infer;
pub mod laws;
pub mod metrics;
pub mod numeric;
pub mod scalar;
pub mod variation;
