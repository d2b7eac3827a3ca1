//! Applying the deltas of an instance to a glyph.

use vstd::prelude::*;

use crate::error::ParseError;
use crate::glyph::{
    BoundingBox, CompositeGlyph, CompositeGlyphArgument, CompositeGlyphComponent, CompositeGlyphFlag, Glyph, PhantomPoints, Point,
    SimpleGlyph, SimpleGlyphFlag, ARG_1_AND_2_ARE_WORDS,
};
use crate::gvar::GvarTable;
use crate::metrics::{calculate_phantom_points, deref_option, spec_phantom_points, HheaTable, HmtxTable, Os2};
use crate::numeric::{add_rounded, moved_coordinate, Delta, F2Dot14};
use crate::variation::{deltas_view, glyph_deltas, spec_glyph_deltas, PHANTOM_POINT_COUNT};

verus! {

/// A point moved by a 16.16 delta, each coordinate rounded and saturated.
pub open spec fn moved_point(p: Point, d: (int, int)) -> Point {
    Point(moved_coordinate(p.0 as int, d.0) as i16, moved_coordinate(p.1 as int, d.1) as i16)
}

/// `b` is the smallest box that holds the first `k` points of `pts`.
pub open spec fn bounds_points(b: BoundingBox, pts: Seq<(SimpleGlyphFlag, Point)>, k: int) -> bool {
    &&& forall|i: int|
        0 <= i < k ==> b.x_min <= (#[trigger] pts[i]).1.0 <= b.x_max && b.y_min <= pts[i].1.1 <= b.y_max
    &&& exists|i: int| 0 <= i < k && (#[trigger] pts[i]).1.0 == b.x_min
    &&& exists|i: int| 0 <= i < k && (#[trigger] pts[i]).1.0 == b.x_max
    &&& exists|i: int| 0 <= i < k && (#[trigger] pts[i]).1.1 == b.y_min
    &&& exists|i: int| 0 <= i < k && (#[trigger] pts[i]).1.1 == b.y_max
}

/// The component after a delta: where its arguments are offsets, each is
/// moved by its coordinate of the delta and stored as a 16-bit value;
/// where they are point numbers, the component is unchanged.
pub open spec fn varied_component(old: CompositeGlyphComponent, d: (int, int)) -> CompositeGlyphComponent {
    if old.flags.args_are_xy_values() {
        CompositeGlyphComponent {
            flags: CompositeGlyphFlag(old.flags.0 | ARG_1_AND_2_ARE_WORDS),
            argument1: CompositeGlyphArgument::I16(moved_coordinate(old.argument1.value(), d.0) as i16),
            argument2: CompositeGlyphArgument::I16(moved_coordinate(old.argument2.value(), d.1) as i16),
            ..old
        }
    } else {
        old
    }
}

/// `new` is `old` with the deltas `d` applied, its phantom points `base`
/// moved by the last four deltas. A simple glyph's points move and its box is
/// recomputed from them; a composite glyph's components move; an empty glyph
/// only takes phantom points.
pub open spec fn varied_glyph(old: Glyph, new: Glyph, d: Seq<(int, int)>, base: Seq<Point>) -> bool {
    let np = old.number_of_points() as int;
    &&& new.phantom_points() is Some
    &&& forall|i: int| 0 <= i < 4 ==> new.phantom_points().unwrap()@[i] == moved_point(base[i], d[np + i])
    &&& match (old, new) {
        (Glyph::Empty(_), Glyph::Empty(_)) => true,
        (Glyph::Simple(a), Glyph::Simple(b)) => {
            &&& b.end_pts_of_contours@ == a.end_pts_of_contours@
            &&& b.coordinates@.len() == a.coordinates@.len()
            &&& forall|i: int|
                0 <= i < a.coordinates@.len() ==> (#[trigger] b.coordinates@[i]).0 == a.coordinates@[i].0
                    && b.coordinates@[i].1 == moved_point(a.coordinates@[i].1, d[i])
            &&& bounds_points(b.bounding_box, b.coordinates@, b.coordinates@.len() as int)
        },
        (Glyph::Composite(a), Glyph::Composite(b)) => {
            &&& b.bounding_box == a.bounding_box
            &&& b.glyphs@.len() == a.glyphs@.len()
            &&& forall|i: int|
                0 <= i < a.glyphs@.len() ==> #[trigger] b.glyphs@[i] == varied_component(a.glyphs@[i], d[i])
        },
        _ => false,
    }
}

/// Moves each phantom point by its delta, the deltas of the phantom points
/// starting at `offset`.
fn apply_phantom_point_deltas(phantom_points: &mut PhantomPoints, deltas: &Vec<Delta>, offset: usize)
    requires
        offset + PHANTOM_POINT_COUNT <= deltas@.len(),
    ensures
        forall|i: int| 0 <= i < 4 ==> final(phantom_points)@[i] == moved_point(
            old(phantom_points)@[i],
            deltas_view(deltas@)[offset + i],
        ),
{
    let total = deltas.len();
    let mut i: usize = 0;
    while i < PHANTOM_POINT_COUNT
        invariant
            i <= 4,
            total == deltas@.len(),
            offset + 4 <= deltas@.len(),
            forall|k: int| 0 <= k < i ==> phantom_points@[k] == moved_point(
                old(phantom_points)@[k],
                deltas_view(deltas@)[offset + k],
            ),
            forall|k: int| i <= k < 4 ==> phantom_points@[k] == old(phantom_points)@[k],
        decreases 4 - i,
    {
        let point = phantom_points[i];
        let delta = deltas[offset + i];
        phantom_points[i] = Point(add_rounded(point.0 as i32, delta.x), add_rounded(point.1 as i32, delta.y));
        i = i + 1;
    }
}

/// Moves a component argument by `delta`, rounded; the result is stored as a
/// 16-bit value, saturated.
pub fn add_delta(arg: CompositeGlyphArgument, delta: i64) -> (r: CompositeGlyphArgument)
    ensures
        r == CompositeGlyphArgument::I16(moved_coordinate(arg.value(), delta as int) as i16),
{
    let value: i32 = match arg {
        CompositeGlyphArgument::U8(v) => v as i32,
        CompositeGlyphArgument::I8(v) => v as i32,
        CompositeGlyphArgument::U16(v) => v as i32,
        CompositeGlyphArgument::I16(v) => v as i32,
    };
    CompositeGlyphArgument::I16(add_rounded(value, delta))
}

/// Moves a component by `delta` where its arguments are offsets; a component
/// placed by point numbers is left as it is.
pub fn add_composite_glyph_delta(composite_glyph: &mut CompositeGlyphComponent, delta: Delta)
    ensures
        *final(composite_glyph) == varied_component(*old(composite_glyph), (delta.x as int, delta.y as int)),
{
    if composite_glyph.flags.args_are_xy_values() {
        composite_glyph.argument1 = add_delta(composite_glyph.argument1, delta.x);
        composite_glyph.argument2 = add_delta(composite_glyph.argument2, delta.y);
        // the arguments are now 16-bit values
        composite_glyph.flags = CompositeGlyphFlag(composite_glyph.flags.0 | ARG_1_AND_2_ARE_WORDS);
    }
}

/// What applying variations did: on an error nothing changed and the error
/// is the first of computing the deltas `d` and deriving the phantom points
/// `p`. Otherwise, with no deltas the glyph only took its phantom points;
/// with deltas it is the varied glyph.
pub open spec fn variations_applied(
    old: Glyph,
    new: Glyph,
    r: Result<(), ParseError>,
    d: Result<Option<Seq<(int, int)>>, ParseError>,
    p: Result<Seq<Point>, ParseError>,
) -> bool {
    match r {
        Err(e) => {
            &&& new == old
            &&& (d == Err::<Option<Seq<(int, int)>>, ParseError>(e) || (d.is_ok() && p == Err::<Seq<Point>, ParseError>(e)))
        },
        Ok(()) => {
            &&& d.is_ok()
            &&& p.is_ok()
            &&& match d.unwrap() {
                None => new.same_but_phantom_points(&old) && new.phantom_points() is Some
                    && new.phantom_points().unwrap()@ == p.unwrap(),
                Some(ds) => varied_glyph(old, new, ds, p.unwrap()),
            }
        },
    }
}

/// The box of a single point.
fn point_box(p: Point) -> (r: BoundingBox)
    ensures
        r == (BoundingBox { x_min: p.0, x_max: p.0, y_min: p.1, y_max: p.1 }),
{
    BoundingBox { x_min: p.0, x_max: p.0, y_min: p.1, y_max: p.1 }
}

/// The box grown to hold `p`.
fn add_point(b: BoundingBox, p: Point) -> (r: BoundingBox)
    ensures
        r.x_min == if p.0 < b.x_min { p.0 } else { b.x_min },
        r.x_max == if p.0 > b.x_max { p.0 } else { b.x_max },
        r.y_min == if p.1 < b.y_min { p.1 } else { b.y_min },
        r.y_max == if p.1 > b.y_max { p.1 } else { b.y_max },
{
    BoundingBox {
        x_min: if p.0 < b.x_min { p.0 } else { b.x_min },
        x_max: if p.0 > b.x_max { p.0 } else { b.x_max },
        y_min: if p.1 < b.y_min { p.1 } else { b.y_min },
        y_max: if p.1 > b.y_max { p.1 } else { b.y_max },
    }
}

/// Moves the points of a simple glyph and its phantom points by `deltas`,
/// and recomputes its bounding box from the moved points.
fn vary_simple_glyph(simple_glyph: &mut SimpleGlyph, deltas: &Vec<Delta>, phantom_points: PhantomPoints)
    requires
        old(simple_glyph).wf(),
        deltas@.len() == old(simple_glyph).coordinates@.len() + PHANTOM_POINT_COUNT,
    ensures
        varied_glyph(Glyph::Simple(*old(simple_glyph)), Glyph::Simple(*final(simple_glyph)), deltas_view(deltas@), phantom_points@),
{
    let ghost base = phantom_points@;
    let mut phantom_points = phantom_points;
    let len = simple_glyph.coordinates.len();
    let ghost d = deltas_view(deltas@);
    let ghost before = simple_glyph.coordinates@;
    let ghost ends_before = simple_glyph.end_pts_of_contours@;
    proof {
        let ends = simple_glyph.end_pts_of_contours@;
        assert(ends.last() == ends[ends.len() - 1]);
    }
    let mut bbox = BoundingBox { x_min: 0, x_max: 0, y_min: 0, y_max: 0 };
    let ghost mut wx_min: int = 0;
    let ghost mut wx_max: int = 0;
    let ghost mut wy_min: int = 0;
    let ghost mut wy_max: int = 0;
    let mut i: usize = 0;
    while i < len
        invariant
            i <= len,
            len == before.len(),
            len + PHANTOM_POINT_COUNT == deltas@.len(),
            d == deltas_view(deltas@),
            simple_glyph.end_pts_of_contours@ == ends_before,
            simple_glyph.coordinates@.len() == len,
            forall|k: int| 0 <= k < i ==> (#[trigger] simple_glyph.coordinates@[k]).0 == before[k].0
                && simple_glyph.coordinates@[k].1 == moved_point(before[k].1, d[k]),
            forall|k: int| i <= k < len ==> #[trigger] simple_glyph.coordinates@[k] == before[k],
            i > 0 ==> {
                &&& forall|k: int| 0 <= k < i ==> bbox.x_min <= (#[trigger] simple_glyph.coordinates@[k]).1.0 <= bbox.x_max
                    && bbox.y_min <= simple_glyph.coordinates@[k].1.1 <= bbox.y_max
                &&& 0 <= wx_min < i && simple_glyph.coordinates@[wx_min].1.0 == bbox.x_min
                &&& 0 <= wx_max < i && simple_glyph.coordinates@[wx_max].1.0 == bbox.x_max
                &&& 0 <= wy_min < i && simple_glyph.coordinates@[wy_min].1.1 == bbox.y_min
                &&& 0 <= wy_max < i && simple_glyph.coordinates@[wy_max].1.1 == bbox.y_max
            },
        decreases len - i,
    {
        let (flag, point) = simple_glyph.coordinates[i];
        let delta = deltas[i];
        let moved = Point(add_rounded(point.0 as i32, delta.x), add_rounded(point.1 as i32, delta.y));
        assert(d[i as int] == (delta.x as int, delta.y as int));
        assert(moved == moved_point(point, d[i as int]));
        simple_glyph.coordinates.set(i, (flag, moved));
        if i == 0 {
            bbox = point_box(moved);
            proof {
                wx_min = 0;
                wx_max = 0;
                wy_min = 0;
                wy_max = 0;
            }
        } else {
            proof {
                if moved.0 < bbox.x_min {
                    wx_min = i as int;
                }
                if moved.0 > bbox.x_max {
                    wx_max = i as int;
                }
                if moved.1 < bbox.y_min {
                    wy_min = i as int;
                }
                if moved.1 > bbox.y_max {
                    wy_max = i as int;
                }
            }
            bbox = add_point(bbox, moved);
        }
        i = i + 1;
    }
    simple_glyph.bounding_box = bbox;
    apply_phantom_point_deltas(&mut phantom_points, &deltas, len);
    simple_glyph.phantom_points = Some(phantom_points);
    proof {
        let c = simple_glyph.coordinates@;
        assert(c[wx_min].1.0 == bbox.x_min);
        assert(c[wx_max].1.0 == bbox.x_max);
        assert(c[wy_min].1.1 == bbox.y_min);
        assert(c[wy_max].1.1 == bbox.y_max);
    }
}

/// Moves the components of a composite glyph and its phantom points by
/// `deltas`.
fn vary_composite_glyph(composite: &mut CompositeGlyph, deltas: &Vec<Delta>, phantom_points: PhantomPoints)
    requires
        deltas@.len() == old(composite).glyphs@.len() + PHANTOM_POINT_COUNT,
    ensures
        varied_glyph(Glyph::Composite(*old(composite)), Glyph::Composite(*final(composite)), deltas_view(deltas@), phantom_points@),
{
    let ghost base = phantom_points@;
    let mut phantom_points = phantom_points;
    let len = composite.glyphs.len();
    let ghost d = deltas_view(deltas@);
    let ghost before = composite.glyphs@;
    let mut i: usize = 0;
    while i < len
        invariant
            i <= len,
            len == before.len(),
            len + PHANTOM_POINT_COUNT == deltas@.len(),
            d == deltas_view(deltas@),
            composite.bounding_box == old(composite).bounding_box,
            composite.glyphs@.len() == len,
            forall|k: int| 0 <= k < i ==> #[trigger] composite.glyphs@[k] == varied_component(before[k], d[k]),
            forall|k: int| i <= k < len ==> #[trigger] composite.glyphs@[k] == before[k],
        decreases len - i,
    {
        let mut component = composite.glyphs[i];
        add_composite_glyph_delta(&mut component, deltas[i]);
        composite.glyphs.set(i, component);
        i = i + 1;
    }
    apply_phantom_point_deltas(&mut phantom_points, &deltas, len);
    composite.phantom_points = Some(phantom_points);
    assert(forall|k: int| 0 <= k < 4 ==> phantom_points@[k] == moved_point(base[k], d[len + k]));
}

impl Glyph {
    /// Applies the variation instance `instance` to the glyph: computes the
    /// deltas of its points, moves the points (a simple glyph) or the
    /// components (a composite glyph) by them, recomputes the bounding box of
    /// a simple glyph, and stores the phantom points moved by the last four
    /// deltas. Where the glyph has no variation data it only takes its
    /// phantom points. On an error the glyph is left as it was.
    pub fn apply_variations(
        &mut self,
        glyph_index: u16,
        instance: &[F2Dot14],
        gvar: &GvarTable,
        hmtx: &HmtxTable,
        vmtx: Option<&HmtxTable>,
        os2: Option<&Os2>,
        hhea: &HheaTable,
    ) -> (r: Result<(), ParseError>)
        requires
            old(self).wf(),
            gvar.wf(),
        ensures
            variations_applied(
                *old(self),
                *final(self),
                r,
                spec_glyph_deltas(*old(self), glyph_index, instance@, *gvar),
                spec_phantom_points(glyph_index, old(self).bounding_box(), *hmtx, deref_option(vmtx), deref_option(os2), *hhea),
            ),
    {
        let deltas = match glyph_deltas(self, glyph_index, instance, gvar) {
            Err(e) => return Err(e),
            Ok(d) => d,
        };
        let mut phantom_points = match calculate_phantom_points(glyph_index, self.bounding_box(), hmtx, vmtx, os2, hhea) {
            Err(e) => return Err(e),
            Ok(p) => p,
        };
        let deltas = match deltas {
            None => {
                // no variation data: the glyph only takes its phantom points
                self.set_phantom_points(phantom_points);
                return Ok(());
            },
            Some(d) => d,
        };
        match self {
            Glyph::Empty(empty) => {
                apply_phantom_point_deltas(&mut phantom_points, &deltas, 0);
                empty.phantom_points = Some(phantom_points);
                Ok(())
            },
            Glyph::Simple(simple_glyph) => {
                vary_simple_glyph(simple_glyph, &deltas, phantom_points);
                Ok(())
            },
            Glyph::Composite(composite) => {
                vary_composite_glyph(composite, &deltas, phantom_points);
                Ok(())
            },
        }
    }
}

} // verus!
