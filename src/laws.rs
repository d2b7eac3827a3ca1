//! Properties of the engine that relate its functions or hold of all inputs.

use vstd::prelude::*;

use crate::apply::{bounds_points, moved_point, variations_applied, varied_component, varied_glyph};
use crate::error::ParseError;
use crate::glyph::{
    BoundingBox, CompositeGlyphArgument, Glyph, Point, SimpleGlyphFlag, ARGS_ARE_XY_VALUES, ARG_1_AND_2_ARE_WORDS,
};
use crate::metrics::{spec_phantom_points, HheaTable, HmtxTable, Os2};
use crate::gvar::{GvarTable, TupleVariationHeader, TupleVariationStore};
use crate::numeric::{abs, moved_coordinate, raw_values, scale_delta, F2Dot14, SCALAR_ONE};
use crate::scalar::{
    applicable_tuples, applicable_upto, axis_scalar, region_axes, coordinate_at, header_scalar, implicit_end, implicit_start,
    scalar_over,
};
use crate::variation::{accumulated, point_count, region_delta, spec_glyph_deltas};

verus! {

/// The tuple's peak can be found and its region stays clear of the default
/// instance: on some axis of the region its peak is nonzero, and where it
/// gives an intermediate region, that region does not reach across zero on
/// that axis.
pub open spec fn anchored_off_default(h: TupleVariationHeader, gvar: GvarTable) -> bool {
    match h.spec_peak_tuple(&gvar) {
        None => false,
        Some(peak) => {
            let p = raw_values(peak);
            match h.intermediate_region {
                None => exists|i: int| 0 <= i < p.len() && p[i] != 0,
                Some((s, e)) => exists|i: int|
                    0 <= i < p.len() && i < s@.len() && i < e@.len() && p[i] != 0
                        && (p[i] > 0 ==> s@[i].0 >= 0) && (p[i] < 0 ==> e@[i].0 <= 0),
            }
        },
    }
}

/// Once one axis scalar is zero, the product stays zero.
proof fn lemma_scalar_over_zero(start: Seq<i16>, end: Seq<i16>, peak: Seq<i16>, instance: Seq<i16>, i: nat, k: nat)
    requires
        i < k,
        axis_scalar(start[i as int] as int, end[i as int] as int, peak[i as int] as int, coordinate_at(instance, i as int)) == 0,
    ensures
        scalar_over(start, end, peak, instance, k) == 0,
    decreases k,
{
    if k > i + 1 {
        lemma_scalar_over_zero(start, end, peak, instance, i, (k - 1) as nat);
    }
}

/// A tuple anchored off the default has scalar zero at the default instance.
proof fn lemma_anchored_scalar_zero(h: TupleVariationHeader, gvar: GvarTable, instance: Seq<F2Dot14>)
    requires
        anchored_off_default(h, gvar),
        forall|i: int| 0 <= i < instance.len() ==> (#[trigger] instance[i]).0 == 0,
    ensures
        header_scalar(h, gvar, instance) == 0,
{
    match h.spec_peak_tuple(&gvar) {
        None => {},
        Some(peak) => {
            let p = raw_values(peak);
            let v = raw_values(instance);
            match h.intermediate_region {
                None => {
                    let i = choose|i: int| 0 <= i < p.len() && p[i] != 0;
                    let s = implicit_start(p);
                    let e = implicit_end(p);
                    assert(coordinate_at(v, i) == 0);
                    lemma_scalar_over_zero(s, e, p, v, i as nat, region_axes(s, e, p));
                },
                Some((s0, e0)) => {
                    let i = choose|i: int|
                        0 <= i < p.len() && i < s0@.len() && i < e0@.len() && p[i] != 0
                            && (p[i] > 0 ==> s0@[i].0 >= 0) && (p[i] < 0 ==> e0@[i].0 <= 0);
                    let s = raw_values(s0@);
                    let e = raw_values(e0@);
                    assert(coordinate_at(v, i) == 0);
                    assert(axis_scalar(s[i] as int, e[i] as int, p[i] as int, coordinate_at(v, i)) == 0) by (nonlinear_arith)
                        requires
                            p[i] != 0,
                            coordinate_at(v, i) == 0,
                            p[i] > 0 ==> s[i] >= 0,
                            p[i] < 0 ==> e[i] <= 0,
                    {
                    }
                    lemma_scalar_over_zero(s, e, p, v, i as nat, region_axes(s, e, p));
                },
            }
        },
    }
}

/// No tuple whose scalar is zero is applicable.
proof fn lemma_none_applicable(headers: Seq<TupleVariationHeader>, gvar: GvarTable, instance: Seq<F2Dot14>, k: nat)
    requires
        k <= headers.len(),
        forall|j: int| 0 <= j < k ==> header_scalar(#[trigger] headers[j], gvar, instance) == 0,
        forall|j: int| 0 <= j < k ==> (#[trigger] headers[j]).spec_peak_tuple(&gvar) is Some,
    ensures
        applicable_upto(headers, gvar, instance, k) == Ok::<Seq<(u64, usize)>, ParseError>(Seq::<(u64, usize)>::empty()),
    decreases k,
{
    if k > 0 {
        lemma_none_applicable(headers, gvar, instance, (k - 1) as nat);
    }
}

/// At the default instance, where every axis is zero, a glyph whose tuples
/// all stay clear of the default has a zero delta at every point, phantom
/// points included.
pub proof fn lemma_default_instance_zero_deltas(g: Glyph, glyph_index: u16, instance: Seq<F2Dot14>, gvar: GvarTable)
    requires
        forall|i: int| 0 <= i < instance.len() ==> (#[trigger] instance[i]).0 == 0,
        glyph_index < gvar.glyph_variation_data@.len(),
        gvar.glyph_variation_data@[glyph_index as int] matches Some(store) ==> forall|j: int|
            0 <= j < store.headers@.len() ==> anchored_off_default(#[trigger] store.headers@[j], gvar),
    ensures
        spec_glyph_deltas(g, glyph_index, instance, gvar) matches Ok(r) && (r matches Some(d) ==> d.len() == point_count(g)
            && forall|t: int| 0 <= t < d.len() ==> d[t] == (0int, 0int)),
{
    match gvar.glyph_variation_data@[glyph_index as int] {
        None => {},
        Some(store) => {
            let headers = store.headers@;
            assert forall|j: int| 0 <= j < headers.len() implies header_scalar(#[trigger] headers[j], gvar, instance) == 0 by {
                lemma_anchored_scalar_zero(headers[j], gvar, instance);
            }
            lemma_none_applicable(headers, gvar, instance, headers.len());
        },
    }
}

/// A coordinate moved by a zero delta stays where it is.
proof fn lemma_moved_by_zero(v: int)
    requires
        -0x8000 <= v <= 0x7FFF,
    ensures
        moved_coordinate(v, 0) == v,
{
    if v >= 0 {
        assert((v * 0x10000 + 0x8000) / 0x10000 == v) by (nonlinear_arith)
            requires v >= 0;
    } else {
        assert((-(v * 0x10000) + 0x8000) / 0x10000 == -v) by (nonlinear_arith)
            requires v < 0;
    }
}

/// A glyph's points have one smallest box.
proof fn lemma_bounds_unique(a: BoundingBox, b: BoundingBox, pts: Seq<(SimpleGlyphFlag, Point)>, k: int)
    requires
        bounds_points(a, pts, k),
        bounds_points(b, pts, k),
    ensures
        a == b,
{
    let i = choose|i: int| 0 <= i < k && (#[trigger] pts[i]).1.0 == a.x_min;
    let j = choose|i: int| 0 <= i < k && (#[trigger] pts[i]).1.0 == b.x_min;
    assert(pts[i].1.0 >= b.x_min && pts[j].1.0 >= a.x_min);
    let i = choose|i: int| 0 <= i < k && (#[trigger] pts[i]).1.0 == a.x_max;
    let j = choose|i: int| 0 <= i < k && (#[trigger] pts[i]).1.0 == b.x_max;
    assert(pts[i].1.0 <= b.x_max && pts[j].1.0 <= a.x_max);
    let i = choose|i: int| 0 <= i < k && (#[trigger] pts[i]).1.1 == a.y_min;
    let j = choose|i: int| 0 <= i < k && (#[trigger] pts[i]).1.1 == b.y_min;
    assert(pts[i].1.1 >= b.y_min && pts[j].1.1 >= a.y_min);
    let i = choose|i: int| 0 <= i < k && (#[trigger] pts[i]).1.1 == a.y_max;
    let j = choose|i: int| 0 <= i < k && (#[trigger] pts[i]).1.1 == b.y_max;
    assert(pts[i].1.1 <= b.y_max && pts[j].1.1 <= a.y_max);
}

/// The argument's value fits in 16 signed bits.
pub open spec fn fits_i16(a: CompositeGlyphArgument) -> bool {
    -0x8000 <= a.value() <= 0x7FFF
}

/// At the default instance, a glyph whose tuples all stay clear of the
/// default is left as it was, and its phantom points are the derived ones,
/// whatever its kind. A simple glyph keeps its points and contours, and its
/// box where that was already the box of its points. A composite glyph keeps
/// its box and each component its child, scale and placement; arguments that
/// are offsets keep their value where it fits 16 bits, though the deltas
/// of a tuple store them as 16-bit values.
pub proof fn lemma_default_instance_keeps_glyph(
    old: Glyph,
    new: Glyph,
    r: Result<(), ParseError>,
    glyph_index: u16,
    instance: Seq<F2Dot14>,
    gvar: GvarTable,
    hmtx: HmtxTable,
    vmtx: Option<HmtxTable>,
    os2: Option<Os2>,
    hhea: HheaTable,
)
    requires
        forall|i: int| 0 <= i < instance.len() ==> (#[trigger] instance[i]).0 == 0,
        glyph_index < gvar.glyph_variation_data@.len(),
        gvar.glyph_variation_data@[glyph_index as int] matches Some(store) ==> forall|j: int|
            0 <= j < store.headers@.len() ==> anchored_off_default(#[trigger] store.headers@[j], gvar),
        variations_applied(
            old,
            new,
            r,
            spec_glyph_deltas(old, glyph_index, instance, gvar),
            spec_phantom_points(glyph_index, old.bounding_box(), hmtx, vmtx, os2, hhea),
        ),
        r is Ok,
    ensures
        new.phantom_points() is Some,
        new.phantom_points().unwrap()@ == spec_phantom_points(glyph_index, old.bounding_box(), hmtx, vmtx, os2, hhea).unwrap(),
        old is Empty ==> new is Empty,
        old is Simple ==> {
            let (a, b) = (old->Simple_0, new->Simple_0);
            &&& new is Simple
            &&& b.coordinates@ == a.coordinates@
            &&& b.end_pts_of_contours@ == a.end_pts_of_contours@
            &&& bounds_points(a.bounding_box, a.coordinates@, a.coordinates@.len() as int) ==> b.bounding_box
                == a.bounding_box
        },
        old is Composite ==> {
            let (a, b) = (old->Composite_0, new->Composite_0);
            &&& new is Composite
            &&& b.bounding_box == a.bounding_box
            &&& b.glyphs@.len() == a.glyphs@.len()
            &&& forall|i: int|
                0 <= i < a.glyphs@.len() ==> {
                    let (c, e) = (#[trigger] a.glyphs@[i], b.glyphs@[i]);
                    &&& e.glyph_index == c.glyph_index
                    &&& e.scale == c.scale
                    &&& e.flags.args_are_xy_values() == c.flags.args_are_xy_values()
                    &&& fits_i16(c.argument1) ==> e.argument1.value() == c.argument1.value()
                    &&& fits_i16(c.argument2) ==> e.argument2.value() == c.argument2.value()
                }
        },
{
    lemma_default_instance_zero_deltas(old, glyph_index, instance, gvar);
    let p = spec_phantom_points(glyph_index, old.bounding_box(), hmtx, vmtx, os2, hhea).unwrap();
    match spec_glyph_deltas(old, glyph_index, instance, gvar).unwrap() {
        None => {
            assert(new.phantom_points().unwrap()@ =~= p);
        },
        Some(d) => {
            let np = old.number_of_points() as int;
            assert forall|i: int| 0 <= i < 4 implies new.phantom_points().unwrap()@[i] == p[i] by {
                assert(d[np + i] == (0int, 0int));
                lemma_moved_by_zero(p[i].0 as int);
                lemma_moved_by_zero(p[i].1 as int);
            }
            assert(new.phantom_points().unwrap()@ =~= p);
            match old {
                Glyph::Simple(a) => {
                    let b = new->Simple_0;
                    assert forall|i: int| 0 <= i < a.coordinates@.len() implies b.coordinates@[i] == a.coordinates@[i] by {
                        assert(d[i] == (0int, 0int));
                        lemma_moved_by_zero(a.coordinates@[i].1.0 as int);
                        lemma_moved_by_zero(a.coordinates@[i].1.1 as int);
                    }
                    assert(b.coordinates@ =~= a.coordinates@);
                    if bounds_points(a.bounding_box, a.coordinates@, a.coordinates@.len() as int) {
                        lemma_bounds_unique(a.bounding_box, b.bounding_box, a.coordinates@, a.coordinates@.len() as int);
                    }
                },
                Glyph::Composite(a) => {
                    let b = new->Composite_0;
                    assert forall|i: int| 0 <= i < a.glyphs@.len() implies {
                        let (c, e) = (#[trigger] a.glyphs@[i], b.glyphs@[i]);
                        &&& e.glyph_index == c.glyph_index
                        &&& e.scale == c.scale
                        &&& e.flags.args_are_xy_values() == c.flags.args_are_xy_values()
                            &&& fits_i16(c.argument1) ==> e.argument1.value() == c.argument1.value()
                        &&& fits_i16(c.argument2) ==> e.argument2.value() == c.argument2.value()
                    } by {
                        let c = a.glyphs@[i];
                        assert(d[i] == (0int, 0int));
                        if c.flags.args_are_xy_values() {
                            let f = c.flags.0;
                            assert((f | ARG_1_AND_2_ARE_WORDS) & ARGS_ARE_XY_VALUES != 0) by (bit_vector)
                                requires f & 2u16 != 0, ARG_1_AND_2_ARE_WORDS == 1u16, ARGS_ARE_XY_VALUES == 2u16;
                            if fits_i16(c.argument1) {
                                lemma_moved_by_zero(c.argument1.value());
                            }
                            if fits_i16(c.argument2) {
                                lemma_moved_by_zero(c.argument2.value());
                            }
                        }
                    }
                },
                Glyph::Empty(_) => {},
            }
        },
    }
}

/// A glyph with no variation data gets no deltas; applying variations to it
/// only gives it its derived phantom points.
pub proof fn lemma_no_variation_data(
    old: Glyph,
    new: Glyph,
    r: Result<(), ParseError>,
    glyph_index: u16,
    instance: Seq<F2Dot14>,
    gvar: GvarTable,
    p: Result<Seq<Point>, ParseError>,
)
    requires
        glyph_index < gvar.glyph_variation_data@.len(),
        gvar.glyph_variation_data@[glyph_index as int] is None,
        variations_applied(old, new, r, spec_glyph_deltas(old, glyph_index, instance, gvar), p),
    ensures
        spec_glyph_deltas(old, glyph_index, instance, gvar) == Ok::<Option<Seq<(int, int)>>, ParseError>(None),
        r is Ok <==> p is Ok,
        r is Ok ==> new.same_but_phantom_points(&old) && new.phantom_points() is Some
            && new.phantom_points().unwrap()@ == p.unwrap(),
        r is Err ==> new == old,
{
}

/// A call that fails leaves the glyph as it was: variations are only ever
/// applied to an unvaried outline, and never in part.
pub proof fn lemma_failure_leaves_glyph(
    old: Glyph,
    new: Glyph,
    r: Result<(), ParseError>,
    d: Result<Option<Seq<(int, int)>>, ParseError>,
    p: Result<Seq<Point>, ParseError>,
)
    requires
        variations_applied(old, new, r, d, p),
        r is Err,
    ensures
        new == old,
{
}

/// The components of a composite glyph that are placed by point numbers keep
/// their arguments and flags, whatever their deltas.
pub proof fn lemma_point_placed_components_unchanged(old: Glyph, new: Glyph, d: Seq<(int, int)>, base: Seq<Point>)
    requires
        old is Composite,
        varied_glyph(old, new, d, base),
    ensures
        forall|i: int|
            0 <= i < old->Composite_0.glyphs@.len() && !(#[trigger] old->Composite_0.glyphs@[i]).flags.args_are_xy_values()
                ==> new->Composite_0.glyphs@[i] == old->Composite_0.glyphs@[i],
{
    let a = old->Composite_0;
    let b = new->Composite_0;
    assert forall|i: int| 0 <= i < a.glyphs@.len() && !(#[trigger] a.glyphs@[i]).flags.args_are_xy_values()
        implies b.glyphs@[i] == a.glyphs@[i] by {
        assert(b.glyphs@[i] == varied_component(a.glyphs@[i], d[i]));
    }
}

/// Each partial product of axis scalars is one where the instance sits on
/// the peak.
proof fn lemma_scalar_over_at_peak(peak: Seq<i16>, instance: Seq<i16>, k: nat)
    requires
        k <= peak.len(),
        k <= instance.len(),
        forall|i: int| 0 <= i < k ==> instance[i] == peak[i],
    ensures
        scalar_over(implicit_start(peak), implicit_end(peak), peak, instance, k) == SCALAR_ONE,
    decreases k,
{
    if k > 0 {
        lemma_scalar_over_at_peak(peak, instance, (k - 1) as nat);
        let i = k - 1;
        let s = implicit_start(peak);
        let e = implicit_end(peak);
        assert(axis_scalar(s[i] as int, e[i] as int, peak[i] as int, coordinate_at(instance, i)) == SCALAR_ONE);
        assert(SCALAR_ONE * SCALAR_ONE / (SCALAR_ONE as int) == SCALAR_ONE) by (nonlinear_arith);
    }
}

/// A tuple without an intermediate region has scalar one at an instance
/// that sits on its peak.
pub proof fn lemma_scalar_one_at_peak(h: TupleVariationHeader, gvar: GvarTable, instance: Seq<F2Dot14>)
    requires
        h.intermediate_region is None,
        h.spec_peak_tuple(&gvar) matches Some(peak) && raw_values(peak) == raw_values(instance),
    ensures
        header_scalar(h, gvar, instance) == SCALAR_ONE,
{
    let p = raw_values(h.spec_peak_tuple(&gvar).unwrap());
    let v = raw_values(instance);
    let n = region_axes(implicit_start(p), implicit_end(p), p);
    lemma_scalar_over_at_peak(p, v, n);
}

/// A glyph whose variation data is one tuple, at an instance where that
/// tuple's scalar is one, takes the tuple's deltas as they are: its explicit
/// deltas, with the deltas inferred from them for a simple glyph.
pub proof fn lemma_full_strength_tuple(g: Glyph, glyph_index: u16, instance: Seq<F2Dot14>, gvar: GvarTable)
    requires
        glyph_index < gvar.glyph_variation_data@.len(),
        gvar.glyph_variation_data@[glyph_index as int] matches Some(store) && store.headers@.len() == 1
            && header_scalar(store.headers@[0], gvar, instance) == SCALAR_ONE,
    ensures
        ({
            let store = gvar.glyph_variation_data@[glyph_index as int].unwrap();
            let n = point_count(g);
            match store.headers@[0].spec_explicit_deltas(store.shared_point_numbers, n) {
                Err(e) => spec_glyph_deltas(g, glyph_index, instance, gvar) == Err::<Option<Seq<(int, int)>>, ParseError>(e),
                Ok(ex) => spec_glyph_deltas(g, glyph_index, instance, gvar) == Ok::<Option<Seq<(int, int)>>, ParseError>(
                    Some(Seq::new(n, |t: int| region_delta(g, ex, t))),
                ),
            }
        }),
{
    let store = gvar.glyph_variation_data@[glyph_index as int].unwrap();
    let n = point_count(g);
    assert(applicable_upto(store.headers@, gvar, instance, 0) == Ok::<Seq<(u64, usize)>, ParseError>(Seq::<(u64, usize)>::empty()));
    assert(store.headers@[0].spec_peak_tuple(&gvar) is Some);
    assert(applicable_tuples(store, gvar, instance) == Ok::<Seq<(u64, usize)>, ParseError>(seq![(SCALAR_ONE, 0usize)]));
    let app = seq![(SCALAR_ONE, 0usize)];
    match store.headers@[0].spec_explicit_deltas(store.shared_point_numbers, n) {
        Err(e) => {},
        Ok(ex) => {
            let zeros = Seq::new(n, |i: int| (0int, 0int));
            assert(accumulated(g, store, app, n, 0) == Ok::<Seq<(int, int)>, ParseError>(zeros));
            assert(app[0] == (SCALAR_ONE, 0usize));
            let d = accumulated(g, store, app, n, 1);
            assert(d == Ok::<Seq<(int, int)>, ParseError>(Seq::new(
                n,
                |t: int|
                    (
                        zeros[t].0 + scale_delta(region_delta(g, ex, t).0, SCALAR_ONE as int),
                        zeros[t].1 + scale_delta(region_delta(g, ex, t).1, SCALAR_ONE as int),
                    ),
            )));
            assert forall|t: int| 0 <= t < n implies (zeros[t].0 + scale_delta(region_delta(g, ex, t).0, SCALAR_ONE as int),
                zeros[t].1 + scale_delta(region_delta(g, ex, t).1, SCALAR_ONE as int)) == region_delta(g, ex, t) by {
                lemma_scale_by_one(region_delta(g, ex, t).0);
                lemma_scale_by_one(region_delta(g, ex, t).1);
            }
            assert(d.unwrap() =~= Seq::new(n, |t: int| region_delta(g, ex, t)));
        },
    }
}

/// A delta weighted by a scalar of one is unchanged.
proof fn lemma_scale_by_one(d: int)
    ensures
        scale_delta(d, SCALAR_ONE as int) == d,
{
    let one = SCALAR_ONE as int;
    if d >= 0 {
        assert(d * one >= 0) by (nonlinear_arith)
            requires d >= 0, one > 0;
        assert(d * one / one == d) by (nonlinear_arith)
            requires one > 0;
    } else {
        assert(d * one < 0) by (nonlinear_arith)
            requires d < 0, one > 0;
        assert((-(d * one)) / one == -d) by (nonlinear_arith)
            requires one > 0;
    }
}

/// The deltas of a glyph that is not simple depend on its number of points
/// alone.
proof fn lemma_accumulated_ignores_outline(
    g1: Glyph,
    g2: Glyph,
    store: TupleVariationStore,
    app: Seq<(u64, usize)>,
    n: nat,
    k: nat,
)
    requires
        !(g1 is Simple),
        !(g2 is Simple),
    ensures
        accumulated(g1, store, app, n, k) == accumulated(g2, store, app, n, k),
    decreases k,
{
    if k > 0 {
        lemma_accumulated_ignores_outline(g1, g2, store, app, n, (k - 1) as nat);
        match accumulated(g1, store, app, n, (k - 1) as nat) {
            Err(_) => {},
            Ok(acc) => {
                let h = store.headers@[app[k - 1].1 as int];
                match h.spec_explicit_deltas(store.shared_point_numbers, n) {
                    Err(_) => {},
                    Ok(ex) => {
                        let s = app[k - 1].0 as int;
                        assert(Seq::new(
                            n,
                            |i: int|
                                (
                                    acc[i].0 + scale_delta(region_delta(g1, ex, i).0, s),
                                    acc[i].1 + scale_delta(region_delta(g1, ex, i).1, s),
                                ),
                        ) =~= Seq::new(
                            n,
                            |i: int|
                                (
                                    acc[i].0 + scale_delta(region_delta(g2, ex, i).0, s),
                                    acc[i].1 + scale_delta(region_delta(g2, ex, i).1, s),
                                ),
                        ));
                    },
                }
            },
        }
    }
}

/// Applying variations to a composite glyph that was already varied adds
/// the same deltas once more: the second call sees the same deltas as the
/// first and moves each component by them again. Variations are meant for
/// the unvaried glyph.
pub proof fn lemma_second_application_adds_again(
    g0: Glyph,
    g1: Glyph,
    g2: Glyph,
    glyph_index: u16,
    instance: Seq<F2Dot14>,
    gvar: GvarTable,
    p1: Result<Seq<Point>, ParseError>,
    p2: Result<Seq<Point>, ParseError>,
)
    requires
        g0 is Composite,
        spec_glyph_deltas(g0, glyph_index, instance, gvar) matches Ok(Some(_)),
        variations_applied(g0, g1, Ok(()), spec_glyph_deltas(g0, glyph_index, instance, gvar), p1),
        variations_applied(g1, g2, Ok(()), spec_glyph_deltas(g1, glyph_index, instance, gvar), p2),
    ensures
        spec_glyph_deltas(g1, glyph_index, instance, gvar) == spec_glyph_deltas(g0, glyph_index, instance, gvar),
        g2 is Composite,
        g2->Composite_0.glyphs@.len() == g0->Composite_0.glyphs@.len(),
        forall|i: int|
            0 <= i < g0->Composite_0.glyphs@.len() ==> #[trigger] g2->Composite_0.glyphs@[i] == varied_component(
                varied_component(g0->Composite_0.glyphs@[i], spec_glyph_deltas(g0, glyph_index, instance, gvar)->Ok_0->Some_0[i]),
                spec_glyph_deltas(g0, glyph_index, instance, gvar)->Ok_0->Some_0[i],
            ),
{
    let store = gvar.glyph_variation_data@[glyph_index as int].unwrap();
    let app = applicable_tuples(store, gvar, instance)->Ok_0;
    assert(g1 is Composite);
    assert(point_count(g1) == point_count(g0));
    lemma_accumulated_ignores_outline(g0, g1, store, app, point_count(g0), app.len());
}

} // verus!
