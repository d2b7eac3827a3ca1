//! The four phantom points of a glyph, derived from its metrics.

use vstd::prelude::*;

use crate::error::ParseError;
use crate::glyph::{BoundingBox, PhantomPoints, Point};
use crate::numeric::clamp_i16;

verus! {

/// An advance and a side bearing.
#[derive(Clone, Copy, Debug, PartialEq, Eq, Structural)]
pub struct LongHorMetric {
    pub advance_width: u16,
    pub lsb: i16,
}

/// Horizontal (or vertical) metrics: a full metric for the first glyphs and a
/// side bearing alone for the rest, which share the last advance.
pub struct HmtxTable {
    pub h_metrics: Vec<LongHorMetric>,
    pub left_side_bearings: Vec<i16>,
}

/// The font-wide horizontal header values the engine reads.
#[derive(Clone, Copy, Debug, PartialEq, Eq, Structural)]
pub struct HheaTable {
    pub ascender: i16,
    pub descender: i16,
}

/// The `OS/2` values the engine reads.
#[derive(Clone, Copy, Debug, PartialEq, Eq, Structural)]
pub struct Os2 {
    pub s_typo_ascender: i16,
    pub s_typo_descender: i16,
}

impl HmtxTable {
    /// The advance and side bearing of glyph `glyph_id`.
    pub open spec fn spec_metric(&self, glyph_id: u16) -> Result<(u16, i16), ParseError> {
        let n = self.h_metrics@.len();
        let i = glyph_id as int;
        if i < n {
            Ok((self.h_metrics@[i].advance_width, self.h_metrics@[i].lsb))
        } else if n == 0 || i - n >= self.left_side_bearings@.len() {
            Err(ParseError::BadIndex)
        } else {
            Ok((self.h_metrics@[n - 1].advance_width, self.left_side_bearings@[i - n]))
        }
    }

    /// The advance and side bearing of glyph `glyph_id`; a glyph past the
    /// full metrics takes the last advance. An error where the table holds
    /// nothing for the glyph.
    pub fn metric(&self, glyph_id: u16) -> (r: Result<(u16, i16), ParseError>)
        ensures
            r == self.spec_metric(glyph_id),
    {
        let n = self.h_metrics.len();
        let i = glyph_id as usize;
        if i < n {
            Ok((self.h_metrics[i].advance_width, self.h_metrics[i].lsb))
        } else if n == 0 || i - n >= self.left_side_bearings.len() {
            Err(ParseError::BadIndex)
        } else {
            Ok((self.h_metrics[n - 1].advance_width, self.left_side_bearings[i - n]))
        }
    }
}

/// The value behind an optional reference.
pub open spec fn deref_option<T>(o: Option<&T>) -> Option<T> {
    match o {
        Some(v) => Some(*v),
        None => None,
    }
}

/// The vertical advance and top side bearing of a glyph whose box reaches up
/// to `y_max`: from the vertical metrics where there are any, else the
/// distance between ascender and descender, from `OS/2` where present, else
/// from `hhea`, and the distance from the ascender down to `y_max`.
pub open spec fn vertical_metric(
    glyph_id: u16,
    y_max: int,
    vmtx: Option<HmtxTable>,
    os2: Option<Os2>,
    hhea: HheaTable,
) -> Result<(int, int), ParseError> {
    match vmtx {
        Some(v) => match v.spec_metric(glyph_id) {
            Ok((advance, tsb)) => Ok((advance as int, tsb as int)),
            Err(e) => Err(e),
        },
        None => {
            let (ascender, descender) = match os2 {
                Some(o) => (o.s_typo_ascender as int, o.s_typo_descender as int),
                None => (hhea.ascender as int, hhea.descender as int),
            };
            Ok((ascender - descender, ascender - y_max))
        },
    }
}

/// The phantom points of glyph `glyph_id` with bounding box `bbox` (all zero
/// where it has none): the left side bearing point `(x_min - lsb, 0)`, the
/// advance point that far to its right, the top point `(0, y_max + tsb)` and
/// the bottom point the vertical advance below it; each coordinate saturated
/// to `i16`.
pub open spec fn spec_phantom_points(
    glyph_id: u16,
    bbox: Option<BoundingBox>,
    hmtx: HmtxTable,
    vmtx: Option<HmtxTable>,
    os2: Option<Os2>,
    hhea: HheaTable,
) -> Result<Seq<Point>, ParseError> {
    let b = match bbox {
        Some(b) => b,
        None => BoundingBox { x_min: 0, x_max: 0, y_min: 0, y_max: 0 },
    };
    match hmtx.spec_metric(glyph_id) {
        Err(e) => Err(e),
        Ok((advance_width, lsb)) => match vertical_metric(glyph_id, b.y_max as int, vmtx, os2, hhea) {
            Err(e) => Err(e),
            Ok((advance_height, tsb)) => {
                let left = clamp_i16(b.x_min - lsb);
                let right = clamp_i16(left + advance_width);
                let top = clamp_i16(b.y_max + tsb);
                let bottom = clamp_i16(top - advance_height);
                Ok(seq![Point(left as i16, 0), Point(right as i16, 0), Point(0, top as i16), Point(0, bottom as i16)])
            },
        },
    }
}

/// `v` saturated to `i16`.
fn saturate(v: i32) -> (r: i16)
    ensures
        r == clamp_i16(v as int),
{
    if v < -32768 {
        -32768
    } else if v > 32767 {
        32767
    } else {
        v as i16
    }
}

/// Derives the phantom points of glyph `glyph_id` from its bounding box and
/// the font's metrics.
pub fn calculate_phantom_points(
    glyph_id: u16,
    bbox: Option<BoundingBox>,
    hmtx: &HmtxTable,
    vmtx: Option<&HmtxTable>,
    os2: Option<&Os2>,
    hhea: &HheaTable,
) -> (r: Result<PhantomPoints, ParseError>)
    ensures
        match r {
            Ok(p) => spec_phantom_points(glyph_id, bbox, *hmtx, deref_option(vmtx), deref_option(os2), *hhea)
                == Ok::<Seq<Point>, ParseError>(p@),
            Err(e) => spec_phantom_points(glyph_id, bbox, *hmtx, deref_option(vmtx), deref_option(os2), *hhea)
                == Err::<Seq<Point>, ParseError>(e),
        },
{
    let b = match bbox {
        Some(b) => b,
        None => BoundingBox { x_min: 0, x_max: 0, y_min: 0, y_max: 0 },
    };
    let (advance_width, lsb) = match hmtx.metric(glyph_id) {
        Ok(m) => m,
        Err(e) => return Err(e),
    };
    let (advance_height, tsb): (i32, i32) = match vmtx {
        Some(v) => match v.metric(glyph_id) {
            Ok((advance, tsb)) => (advance as i32, tsb as i32),
            Err(e) => return Err(e),
        },
        None => {
            let (ascender, descender) = match os2 {
                Some(o) => (o.s_typo_ascender as i32, o.s_typo_descender as i32),
                None => (hhea.ascender as i32, hhea.descender as i32),
            };
            (ascender - descender, ascender - b.y_max as i32)
        },
    };
    let left = saturate(b.x_min as i32 - lsb as i32);
    let right = saturate(left as i32 + advance_width as i32);
    let top = saturate(b.y_max as i32 + tsb);
    let bottom = saturate(top as i32 - advance_height);
    let points: PhantomPoints = [Point(left, 0), Point(right, 0), Point(0, top), Point(0, bottom)];
    proof {
        assert(points@ =~= seq![Point(left, 0), Point(right, 0), Point(0, top), Point(0, bottom)]);
    }
    Ok(points)
}

} // verus!
