//! Bounding boxes of glyphs, composite glyphs included, as integers in units
//! of 1/16384 of a font unit.

use vstd::prelude::*;

use crate::error::ParseError;
use crate::glyph::{
    BoundingBox, CompositeGlyph, CompositeGlyphComponent, CompositeGlyphScale, EmptyGlyph, Glyph, SimpleGlyph,
};
use crate::numeric::{abs, div_toward_zero};

verus! {

/// One font unit in the units of a `Rect`.
pub const RECT_ONE: i64 = 0x4000;

/// The largest magnitude of a `Rect` coordinate; larger values saturate.
pub const RECT_LIMIT: i64 = 0x4000_0000_0000_0000;

/// An axis-aligned rectangle in units of 1/16384 of a font unit.
#[derive(Clone, Copy, Debug, PartialEq, Eq, Structural)]
pub struct Rect {
    pub min_x: i64,
    pub min_y: i64,
    pub max_x: i64,
    pub max_y: i64,
}

/// All glyphs of a font, by glyph index.
pub struct GlyfTable {
    pub records: Vec<Glyph>,
}

/// `v` saturated to `[-RECT_LIMIT, RECT_LIMIT]`.
pub open spec fn sat(v: int) -> int {
    if v < -(RECT_LIMIT as int) {
        -(RECT_LIMIT as int)
    } else if v > RECT_LIMIT as int {
        RECT_LIMIT as int
    } else {
        v
    }
}

pub open spec fn min2(a: int, b: int) -> int {
    if a <= b {
        a
    } else {
        b
    }
}

pub open spec fn max2(a: int, b: int) -> int {
    if a >= b {
        a
    } else {
        b
    }
}

pub open spec fn zero_rect() -> Rect {
    Rect { min_x: 0, min_y: 0, max_x: 0, max_y: 0 }
}

/// The rectangle of a bounding box.
pub open spec fn rect_of_box(b: BoundingBox) -> Rect {
    Rect {
        min_x: (b.x_min * RECT_ONE) as i64,
        min_y: (b.y_min * RECT_ONE) as i64,
        max_x: (b.x_max * RECT_ONE) as i64,
        max_y: (b.y_max * RECT_ONE) as i64,
    }
}

/// The rectangle moved by `(dx, dy)`, saturated.
pub open spec fn translate(r: Rect, dx: int, dy: int) -> Rect {
    Rect {
        min_x: sat(r.min_x + dx) as i64,
        min_y: sat(r.min_y + dy) as i64,
        max_x: sat(r.max_x + dx) as i64,
        max_y: sat(r.max_y + dy) as i64,
    }
}

/// The matrix `(xx, xy, yx, yy)` of raw 2.14 values that a scale stands for.
pub open spec fn matrix_of(s: CompositeGlyphScale) -> (int, int, int, int) {
    match s {
        CompositeGlyphScale::Scale(v) => (v.0 as int, 0, 0, v.0 as int),
        CompositeGlyphScale::XY { x_scale, y_scale } => (x_scale.0 as int, 0, 0, y_scale.0 as int),
        CompositeGlyphScale::Matrix { xx, xy, yx, yy } => (xx.0 as int, xy.0 as int, yx.0 as int, yy.0 as int),
    }
}

/// The point `(x, y)` mapped by the matrix, each coordinate rounded toward
/// zero and saturated.
pub open spec fn map_point(m: (int, int, int, int), x: int, y: int) -> (int, int) {
    (sat(div_toward_zero(m.0 * x + m.2 * y, RECT_ONE as int)), sat(div_toward_zero(m.1 * x + m.3 * y, RECT_ONE as int)))
}

/// The smallest rectangle that holds the four corners of `r` mapped by `m`.
pub open spec fn transform(m: (int, int, int, int), r: Rect) -> Rect {
    let a = map_point(m, r.min_x as int, r.min_y as int);
    let b = map_point(m, r.max_x as int, r.min_y as int);
    let c = map_point(m, r.min_x as int, r.max_y as int);
    let d = map_point(m, r.max_x as int, r.max_y as int);
    Rect {
        min_x: min2(min2(a.0, b.0), min2(c.0, d.0)) as i64,
        min_y: min2(min2(a.1, b.1), min2(c.1, d.1)) as i64,
        max_x: max2(max2(a.0, b.0), max2(c.0, d.0)) as i64,
        max_y: max2(max2(a.1, b.1), max2(c.1, d.1)) as i64,
    }
}

/// The smallest rectangle that holds both.
pub open spec fn union_rect(a: Rect, b: Rect) -> Rect {
    Rect {
        min_x: min2(a.min_x as int, b.min_x as int) as i64,
        min_y: min2(a.min_y as int, b.min_y as int) as i64,
        max_x: max2(a.max_x as int, b.max_x as int) as i64,
        max_y: max2(a.max_y as int, b.max_y as int) as i64,
    }
}

/// The rectangle of a child glyph placed by its component: offset by the
/// arguments; where the component has a scale, the offset is scaled along
/// with the child when the component asks for scaled offsets, and added after
/// scaling otherwise.
pub open spec fn place(c: CompositeGlyphComponent, child: Rect) -> Rect {
    let dx = c.argument1.value() * RECT_ONE;
    let dy = c.argument2.value() * RECT_ONE;
    match c.scale {
        None => translate(child, dx, dy),
        Some(s) => if c.flags.offsets_are_scaled() {
            transform(matrix_of(s), translate(child, dx, dy))
        } else {
            translate(transform(matrix_of(s), child), dx, dy)
        },
    }
}

/// The rectangle of glyph `g`, looking children up in `glyf`, nesting at
/// most `depth` levels of components.
pub open spec fn glyph_rect(glyf: Seq<Glyph>, g: Glyph, depth: nat) -> Result<Rect, ParseError>
    decreases depth, 1nat, 0nat,
{
    match g {
        Glyph::Empty(_) => Ok(zero_rect()),
        Glyph::Simple(s) => Ok(rect_of_box(s.bounding_box)),
        Glyph::Composite(c) => match components_rect(glyf, c.glyphs@, depth, c.glyphs@.len()) {
            Err(e) => Err(e),
            Ok(None) => Ok(zero_rect()),
            Ok(Some(r)) => Ok(r),
        },
    }
}

/// The union of the placed rectangles of the first `k` components; `None`
/// where there are none. An error where a child is missing or the nesting is
/// deeper than `depth`.
pub open spec fn components_rect(glyf: Seq<Glyph>, comps: Seq<CompositeGlyphComponent>, depth: nat, k: nat) -> Result<
    Option<Rect>,
    ParseError,
>
    decreases depth, 0nat, k,
{
    if k == 0 {
        Ok(None)
    } else {
        match components_rect(glyf, comps, depth, (k - 1) as nat) {
            Err(e) => Err(e),
            Ok(acc) => {
                let c = comps[k - 1];
                if c.glyph_index >= glyf.len() {
                    Err(ParseError::BadIndex)
                } else if depth == 0 {
                    Err(ParseError::LimitExceeded)
                } else {
                    match glyph_rect(glyf, glyf[c.glyph_index as int], (depth - 1) as nat) {
                        Err(e) => Err(e),
                        Ok(child) => {
                            let placed = place(c, child);
                            match acc {
                                None => Ok(Some(placed)),
                                Some(r) => Ok(Some(union_rect(r, placed))),
                            }
                        },
                    }
                }
            },
        }
    }
}

/// Every coordinate of the rectangle is within the saturation limits.
pub open spec fn rect_wf(r: Rect) -> bool {
    &&& abs(r.min_x as int) <= RECT_LIMIT
    &&& abs(r.min_y as int) <= RECT_LIMIT
    &&& abs(r.max_x as int) <= RECT_LIMIT
    &&& abs(r.max_y as int) <= RECT_LIMIT
}

/// `v` saturated to `[-RECT_LIMIT, RECT_LIMIT]`.
fn saturate(v: i128) -> (r: i64)
    ensures
        r == sat(v as int),
{
    if v < -(RECT_LIMIT as i128) {
        -RECT_LIMIT
    } else if v > RECT_LIMIT as i128 {
        RECT_LIMIT
    } else {
        v as i64
    }
}

/// `a / RECT_ONE`, rounded toward zero.
fn div_rect_one(a: i128) -> (r: i128)
    requires
        abs(a as int) <= 0x1_0000_0000_0000_0000_0000_0000,
    ensures
        r == div_toward_zero(a as int, RECT_ONE as int),
{
    if a >= 0 {
        a / 0x4000
    } else {
        -((-a) / 0x4000)
    }
}

proof fn lemma_product_bound(a: int, v: int)
    requires
        -0x8000 <= a <= 0x8000,
        abs(v) <= RECT_LIMIT,
    ensures
        -0x8000 * 0x4000_0000_0000_0000 <= a * v <= 0x8000 * 0x4000_0000_0000_0000,
{
    assert(-0x8000 * 0x4000_0000_0000_0000 <= a * v <= 0x8000 * 0x4000_0000_0000_0000) by (nonlinear_arith)
        requires -0x8000 <= a <= 0x8000, -0x4000_0000_0000_0000 <= v <= 0x4000_0000_0000_0000;
}

/// The point mapped by the matrix, rounded toward zero and saturated.
fn map_point_exec(m: (i16, i16, i16, i16), x: i64, y: i64) -> (r: (i64, i64))
    requires
        abs(x as int) <= RECT_LIMIT,
        abs(y as int) <= RECT_LIMIT,
    ensures
        r.0 as int == map_point((m.0 as int, m.1 as int, m.2 as int, m.3 as int), x as int, y as int).0,
        r.1 as int == map_point((m.0 as int, m.1 as int, m.2 as int, m.3 as int), x as int, y as int).1,
{
    let (xx, xy, yx, yy) = m;
    proof {
        lemma_product_bound(xx as int, x as int);
        lemma_product_bound(yx as int, y as int);
        lemma_product_bound(xy as int, x as int);
        lemma_product_bound(yy as int, y as int);
    }
    let nx: i128 = xx as i128 * x as i128 + yx as i128 * y as i128;
    let ny: i128 = xy as i128 * x as i128 + yy as i128 * y as i128;
    (saturate(div_rect_one(nx)), saturate(div_rect_one(ny)))
}

/// The smallest rectangle that holds the four corners of `r` mapped by the
/// matrix.
fn transform_rect(m: (i16, i16, i16, i16), r: Rect) -> (t: Rect)
    requires
        rect_wf(r),
    ensures
        t == transform((m.0 as int, m.1 as int, m.2 as int, m.3 as int), r),
        rect_wf(t),
{
    let a = map_point_exec(m, r.min_x, r.min_y);
    let b = map_point_exec(m, r.max_x, r.min_y);
    let c = map_point_exec(m, r.min_x, r.max_y);
    let d = map_point_exec(m, r.max_x, r.max_y);
    let min_x = min_i64(min_i64(a.0, b.0), min_i64(c.0, d.0));
    let min_y = min_i64(min_i64(a.1, b.1), min_i64(c.1, d.1));
    let max_x = max_i64(max_i64(a.0, b.0), max_i64(c.0, d.0));
    let max_y = max_i64(max_i64(a.1, b.1), max_i64(c.1, d.1));
    Rect { min_x, min_y, max_x, max_y }
}

fn min_i64(a: i64, b: i64) -> (r: i64)
    ensures
        r == min2(a as int, b as int),
{
    if a <= b {
        a
    } else {
        b
    }
}

fn max_i64(a: i64, b: i64) -> (r: i64)
    ensures
        r == max2(a as int, b as int),
{
    if a >= b {
        a
    } else {
        b
    }
}

/// The rectangle moved by `(dx, dy)`, saturated.
fn translate_rect(r: Rect, dx: i64, dy: i64) -> (t: Rect)
    requires
        rect_wf(r),
        abs(dx as int) <= RECT_LIMIT,
        abs(dy as int) <= RECT_LIMIT,
    ensures
        t == translate(r, dx as int, dy as int),
        rect_wf(t),
{
    Rect {
        min_x: saturate(r.min_x as i128 + dx as i128),
        min_y: saturate(r.min_y as i128 + dy as i128),
        max_x: saturate(r.max_x as i128 + dx as i128),
        max_y: saturate(r.max_y as i128 + dy as i128),
    }
}

/// The smallest rectangle that holds both.
fn union_rects(a: Rect, b: Rect) -> (r: Rect)
    ensures
        r == union_rect(a, b),
{
    Rect {
        min_x: min_i64(a.min_x, b.min_x),
        min_y: min_i64(a.min_y, b.min_y),
        max_x: max_i64(a.max_x, b.max_x),
        max_y: max_i64(a.max_y, b.max_y),
    }
}

/// The raw matrix that a component scale stands for.
fn scale_matrix(s: CompositeGlyphScale) -> (m: (i16, i16, i16, i16))
    ensures
        (m.0 as int, m.1 as int, m.2 as int, m.3 as int) == matrix_of(s),
{
    match s {
        CompositeGlyphScale::Scale(v) => (v.0, 0, 0, v.0),
        CompositeGlyphScale::XY { x_scale, y_scale } => (x_scale.0, 0, 0, y_scale.0),
        CompositeGlyphScale::Matrix { xx, xy, yx, yy } => (xx.0, xy.0, yx.0, yy.0),
    }
}

/// The value of a component argument.
fn argument_value(a: crate::glyph::CompositeGlyphArgument) -> (r: i64)
    ensures
        r == a.value(),
{
    match a {
        crate::glyph::CompositeGlyphArgument::U8(v) => v as i64,
        crate::glyph::CompositeGlyphArgument::I8(v) => v as i64,
        crate::glyph::CompositeGlyphArgument::U16(v) => v as i64,
        crate::glyph::CompositeGlyphArgument::I16(v) => v as i64,
    }
}

/// The rectangle of a child glyph placed by its component.
fn place_child(c: &CompositeGlyphComponent, child: Rect) -> (r: Rect)
    requires
        rect_wf(child),
    ensures
        r == place(*c, child),
        rect_wf(r),
{
    let dx = argument_value(c.argument1) * RECT_ONE;
    let dy = argument_value(c.argument2) * RECT_ONE;
    match c.scale {
        None => translate_rect(child, dx, dy),
        Some(s) => {
            let m = scale_matrix(s);
            if c.flags.offsets_are_scaled() {
                // translate, then scale
                transform_rect(m, translate_rect(child, dx, dy))
            } else {
                // scale, then translate
                translate_rect(transform_rect(m, child), dx, dy)
            }
        },
    }
}

impl EmptyGlyph {
    /// An empty glyph covers nothing: its rectangle is all zero.
    pub fn calculate_bounding_box(&self) -> (r: Result<Rect, ParseError>)
        ensures
            r == Ok::<Rect, ParseError>(zero_rect()),
    {
        Ok(Rect { min_x: 0, min_y: 0, max_x: 0, max_y: 0 })
    }
}

impl SimpleGlyph {
    /// The rectangle of the glyph's stored bounding box.
    pub fn calculate_bounding_box(&self) -> (r: Result<Rect, ParseError>)
        ensures
            r == Ok::<Rect, ParseError>(rect_of_box(self.bounding_box)),
            rect_wf(rect_of_box(self.bounding_box)),
    {
        let b = self.bounding_box;
        Ok(
            Rect {
                min_x: b.x_min as i64 * RECT_ONE,
                min_y: b.y_min as i64 * RECT_ONE,
                max_x: b.x_max as i64 * RECT_ONE,
                max_y: b.y_max as i64 * RECT_ONE,
            },
        )
    }
}

impl CompositeGlyph {
    /// The union of the rectangles of the glyph's children, each placed by
    /// its component; all zero where there are no components. Children are
    /// looked up in `glyf` and nest at most `depth` levels.
    pub fn calculate_bounding_box(&self, glyf: &GlyfTable, depth: usize) -> (r: Result<Rect, ParseError>)
        ensures
            r == glyph_rect(glyf.records@, Glyph::Composite(*self), depth as nat),
            r is Ok ==> rect_wf(r.unwrap()),
        decreases depth, 0nat,
    {
        let mut bbox: Option<Rect> = None;
        let mut i: usize = 0;
        while i < self.glyphs.len()
            invariant
                i <= self.glyphs@.len(),
                components_rect(glyf.records@, self.glyphs@, depth as nat, i as nat) == Ok::<Option<Rect>, ParseError>(bbox),
                bbox matches Some(b) ==> rect_wf(b),
            decreases self.glyphs@.len() - i,
        {
            let child = &self.glyphs[i];
            if child.glyph_index as usize >= glyf.records.len() {
                proof {
                    lemma_components_error_stands(glyf.records@, self.glyphs@, depth as nat, (i + 1) as nat, self.glyphs@.len());
                }
                return Err(ParseError::BadIndex);
            }
            if depth == 0 {
                proof {
                    lemma_components_error_stands(glyf.records@, self.glyphs@, depth as nat, (i + 1) as nat, self.glyphs@.len());
                }
                return Err(ParseError::LimitExceeded);
            }
            let child_bbox = match glyf.records[child.glyph_index as usize].rect_within(glyf, depth - 1) {
                Ok(r) => r,
                Err(e) => {
                    proof {
                        lemma_components_error_stands(glyf.records@, self.glyphs@, depth as nat, (i + 1) as nat, self.glyphs@.len());
                    }
                    return Err(e);
                },
            };
            let placed = place_child(child, child_bbox);
            bbox = match bbox {
                None => Some(placed),
                Some(b) => Some(union_rects(b, placed)),
            };
            i = i + 1;
        }
        match bbox {
            Some(b) => Ok(b),
            None => Ok(Rect { min_x: 0, min_y: 0, max_x: 0, max_y: 0 }),
        }
    }
}

/// Once placing a component has failed, the error stands.
proof fn lemma_components_error_stands(glyf: Seq<Glyph>, comps: Seq<CompositeGlyphComponent>, depth: nat, k: nat, m: nat)
    requires
        k <= m,
        components_rect(glyf, comps, depth, k).is_err(),
    ensures
        components_rect(glyf, comps, depth, m) == components_rect(glyf, comps, depth, k),
    decreases m - k,
{
    if k < m {
        lemma_components_error_stands(glyf, comps, depth, k, (m - 1) as nat);
    }
}

impl Glyph {
    /// The bounding rectangle of the glyph: the stored box of a simple glyph,
    /// the union of its placed children for a composite one, zero for an
    /// empty one. An error where a child is missing or composites refer to
    /// each other in a cycle.
    pub fn calculate_bounding_box(&self, glyf: &GlyfTable) -> (r: Result<Rect, ParseError>)
        ensures
            r == glyph_rect(glyf.records@, *self, glyf.records@.len()),
    {
        self.rect_within(glyf, glyf.records.len())
    }

    /// The bounding rectangle of the glyph, nesting at most `depth` levels.
    fn rect_within(&self, glyf: &GlyfTable, depth: usize) -> (r: Result<Rect, ParseError>)
        ensures
            r == glyph_rect(glyf.records@, *self, depth as nat),
            r is Ok ==> rect_wf(r.unwrap()),
        decreases depth, 1nat,
    {
        match self {
            Glyph::Empty(g) => g.calculate_bounding_box(),
            Glyph::Simple(g) => g.calculate_bounding_box(),
            Glyph::Composite(g) => g.calculate_bounding_box(glyf, depth),
        }
    }
}

} // verus!
