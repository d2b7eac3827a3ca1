//! Errors surfaced by the engine.

use vstd::prelude::*;

verus! {

/// A condition of the font data that the engine cannot work with.
#[derive(Clone, Copy, Debug, PartialEq, Eq, Structural)]
pub enum ParseError {
    /// A point number, glyph index or metric lies outside the data it indexes.
    BadIndex,
    /// The delta data of a tuple is inconsistent with its point numbers.
    MalformedTuple,
    /// Composite glyphs nest deeper than the table has glyphs: they refer
    /// to each other in a cycle.
    LimitExceeded,
}

} // verus!
