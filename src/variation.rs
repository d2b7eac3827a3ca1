//! The per-point deltas of a glyph at an instance, and their application.

use vstd::prelude::*;

use crate::error::ParseError;
use crate::glyph::{Glyph, SimpleGlyph};
use crate::gvar::{explicit_deltas_wf, owned, ExplicitDelta, GvarTable, TupleVariationStore, MAX_TUPLE_VARIATIONS};
use crate::infer::{
    count_below, delta_in_range, lemma_infer_axis_in_range, explicit_or_zero, infer_unreferenced_points, is_explicit,
    lemma_count_below_at, point_numbers_of, simple_region_delta,
};
use crate::numeric::{abs, scale, scale_delta, Delta, F2Dot14, DELTA_ONE, SCALAR_ONE};
use crate::scalar::{applicable_tuples, determine_applicable, lemma_region_scalar_bounds};

verus! {

/// The number of phantom points.
pub const PHANTOM_POINT_COUNT: usize = 4;

/// The number of points of a glyph that take deltas, phantom points included.
pub open spec fn point_count(g: Glyph) -> nat {
    (g.number_of_points() + PHANTOM_POINT_COUNT) as nat
}

/// The 16.16 values held by a sequence of deltas.
pub open spec fn deltas_view(v: Seq<Delta>) -> Seq<(int, int)> {
    v.map_values(|d: Delta| (d.x as int, d.y as int))
}

/// The delta of point `t` for a tuple with explicit deltas `ex`, before it is
/// scaled: inferred for the outline points of a simple glyph, explicit or zero
/// otherwise.
pub open spec fn region_delta(g: Glyph, ex: Seq<ExplicitDelta>, t: int) -> (int, int) {
    match g {
        Glyph::Simple(s) => simple_region_delta(s, ex, t),
        _ => explicit_or_zero(ex, t),
    }
}

/// The deltas of the `n` points after the first `k` applicable tuples of
/// `app` have added theirs, each weighted by its scalar; the first error of
/// unpacking a tuple's deltas where there is one.
pub open spec fn accumulated(
    g: Glyph,
    store: TupleVariationStore,
    app: Seq<(u64, usize)>,
    n: nat,
    k: nat,
) -> Result<Seq<(int, int)>, ParseError>
    decreases k,
{
    if k == 0 {
        Ok(Seq::new(n, |i: int| (0, 0)))
    } else {
        match accumulated(g, store, app, n, (k - 1) as nat) {
            Err(e) => Err(e),
            Ok(acc) => {
                let s = app[k - 1].0 as int;
                let h = store.headers@[app[k - 1].1 as int];
                match h.spec_explicit_deltas(store.shared_point_numbers, n) {
                    Err(e) => Err(e),
                    Ok(ex) => Ok(
                        Seq::new(
                            n,
                            |i: int|
                                (
                                    acc[i].0 + scale_delta(region_delta(g, ex, i).0, s),
                                    acc[i].1 + scale_delta(region_delta(g, ex, i).1, s),
                                ),
                        ),
                    ),
                }
            },
        }
    }
}

/// The deltas of glyph `glyph_index` at `instance`, one per point, phantom
/// points included: `None` where the glyph has no variation data, an error
/// where the table has no record for the glyph, where the peak of one of its
/// tuples cannot be found, or where a tuple that applies is malformed.
pub open spec fn spec_glyph_deltas(
    g: Glyph,
    glyph_index: u16,
    instance: Seq<F2Dot14>,
    gvar: GvarTable,
) -> Result<Option<Seq<(int, int)>>, ParseError> {
    if glyph_index >= gvar.glyph_variation_data@.len() {
        Err(ParseError::BadIndex)
    } else {
        match gvar.glyph_variation_data@[glyph_index as int] {
            None => Ok(None),
            Some(store) => match applicable_tuples(store, gvar, instance) {
                Err(e) => Err(e),
                Ok(app) => match accumulated(g, store, app, point_count(g), app.len()) {
                    Err(e) => Err(e),
                    Ok(d) => Ok(Some(d)),
                },
            },
        }
    }
}

/// `r` is what `spec_glyph_deltas` gives.
pub open spec fn deltas_result_is(
    r: Result<Option<Vec<Delta>>, ParseError>,
    s: Result<Option<Seq<(int, int)>>, ParseError>,
) -> bool {
    match r {
        Ok(Some(v)) => s == Ok::<Option<Seq<(int, int)>>, ParseError>(Some(deltas_view(v@))),
        Ok(None) => s == Ok::<Option<Seq<(int, int)>>, ParseError>(None),
        Err(e) => s == Err::<Option<Seq<(int, int)>>, ParseError>(e),
    }
}

/// Where a tuple gives every point an explicit delta, each point has its own.
proof fn lemma_all_explicit(ex: Seq<ExplicitDelta>, n: nat)
    requires
        explicit_deltas_wf(ex, n),
        ex.len() == n,
    ensures
        forall|t: int| 0 <= t < n ==> is_explicit(ex, t),
{
    lemma_numbers_at_least_index(ex, n, ex.len() as int);
    lemma_numbers_at_most_index(ex, n, 0);
    let nums = point_numbers_of(ex);
    assert forall|t: int| 0 <= t < n implies is_explicit(ex, t) by {
        assert(ex[t].number == t);
        assert forall|k: int| 0 <= k < t implies nums[k] < t by {
            assert(ex[k].number == k);
        }
        lemma_count_below_at(nums, t, t);
    }
}

proof fn lemma_numbers_at_least_index(ex: Seq<ExplicitDelta>, n: nat, k: int)
    requires
        explicit_deltas_wf(ex, n),
        0 <= k <= ex.len(),
    ensures
        forall|i: int| 0 <= i < k ==> ex[i].number >= i,
    decreases k,
{
    if k > 0 {
        lemma_numbers_at_least_index(ex, n, k - 1);
        if k > 1 {
            assert(ex[k - 2].number < ex[k - 1].number);
        }
    }
}

proof fn lemma_numbers_at_most_index(ex: Seq<ExplicitDelta>, n: nat, k: int)
    requires
        explicit_deltas_wf(ex, n),
        ex.len() == n,
        0 <= k <= ex.len(),
    ensures
        forall|i: int| k <= i < ex.len() ==> ex[i].number <= i,
    decreases ex.len() - k,
{
    if k < ex.len() {
        lemma_numbers_at_most_index(ex, n, k + 1);
        if k + 1 < ex.len() {
            assert(ex[k].number < ex[k + 1].number);
        }
    }
}

/// Every delta that a tuple gives a point, before it is scaled, is in range.
proof fn lemma_region_delta_range(g: Glyph, ex: Seq<ExplicitDelta>, t: int)
    requires
        g.wf(),
        explicit_deltas_wf(ex, point_count(g)),
    ensures
        delta_in_range(region_delta(g, ex, t)),
{
    lemma_infer_axis_in_range();
}

/// Once unpacking a tuple has failed, the error stands.
proof fn lemma_accumulated_error_stands(
    g: Glyph,
    store: TupleVariationStore,
    app: Seq<(u64, usize)>,
    n: nat,
    k: nat,
    m: nat,
)
    requires
        k <= m,
        accumulated(g, store, app, n, k).is_err(),
    ensures
        accumulated(g, store, app, n, m) == accumulated(g, store, app, n, k),
    decreases m - k,
{
    if k < m {
        lemma_accumulated_error_stands(g, store, app, n, k, (m - 1) as nat);
    }
}

/// The delta of point `t` once the explicit deltas before position `e` have
/// been written.
pub open spec fn explicit_before(ex: Seq<ExplicitDelta>, e: int, t: int) -> (int, int) {
    let j = count_below(point_numbers_of(ex), t) as int;
    if j < e && ex[j].number == t {
        (ex[j].x * DELTA_ONE, ex[j].y * DELTA_ONE)
    } else {
        (0, 0)
    }
}

/// `n` zero deltas.
fn zero_deltas(n: usize) -> (r: Vec<Delta>)
    ensures
        r@.len() == n,
        forall|i: int| 0 <= i < n ==> r@[i].is((0, 0)),
{
    let mut r: Vec<Delta> = Vec::new();
    let mut i: usize = 0;
    while i < n
        invariant
            i <= n,
            r@.len() == i,
            forall|k: int| 0 <= k < i ==> r@[k].is((0, 0)),
        decreases n - i,
    {
        r.push(Delta::zero());
        i = i + 1;
    }
    r
}

/// Writes the explicit deltas of a tuple into `deltas`, which holds zeros.
fn write_explicit_deltas(deltas: &mut Vec<Delta>, explicit: &Vec<ExplicitDelta>)
    requires
        explicit_deltas_wf(explicit@, old(deltas)@.len()),
        forall|t: int| 0 <= t < old(deltas)@.len() ==> old(deltas)@[t].is((0, 0)),
    ensures
        final(deltas)@.len() == old(deltas)@.len(),
        forall|t: int| 0 <= t < final(deltas)@.len() ==> final(deltas)@[t].is(explicit_or_zero(explicit@, t)),
{
    let ghost n = deltas@.len();
    let ghost nums = point_numbers_of(explicit@);
    let mut e: usize = 0;
    while e < explicit.len()
        invariant
            e <= explicit@.len(),
            deltas@.len() == n,
            explicit_deltas_wf(explicit@, n),
            nums == point_numbers_of(explicit@),
            forall|t: int| 0 <= t < n ==> deltas@[t].is(explicit_before(explicit@, e as int, t)),
        decreases explicit@.len() - e,
    {
        let d = explicit[e];
        proof {
            crate::infer::lemma_numbers_sorted(explicit@, n);
            crate::infer::lemma_count_below_sorted(nums, d.number as int);
            assert(nums[e as int] == d.number);
            let c = count_below(nums, d.number as int);
            if c < e {
                assert(nums[c as int] < nums[e as int]);
            }
            assert(c == e);
            assert forall|t: int| 0 <= t < n && t != d.number implies explicit_before(explicit@, e + 1, t)
                == explicit_before(explicit@, e as int, t) by {
                crate::infer::lemma_count_below_sorted(nums, t);
            }
        }
        deltas.set(d.number, Delta { x: d.x as i64 * DELTA_ONE, y: d.y as i64 * DELTA_ONE });
        e = e + 1;
    }
}

/// The bound on the sum of the deltas of `k` tuples.
pub open spec fn sum_bound(k: int) -> int {
    k * 0x4_0000_0000_0000
}

/// The deltas of every point of `glyph` at `instance`, phantom points
/// included, as 16.16 values: for each tuple of its variation data that
/// applies, in order, the tuple's deltas (inferred where the glyph is simple)
/// weighted by the tuple's scalar, summed. `None` where the glyph has no
/// variation data.
pub fn glyph_deltas(glyph: &Glyph, glyph_index: u16, instance: &[F2Dot14], gvar: &GvarTable) -> (r: Result<Option<Vec<Delta>>, ParseError>)
    requires
        glyph.wf(),
        gvar.wf(),
    ensures
        deltas_result_is(r, spec_glyph_deltas(*glyph, glyph_index, instance@, *gvar)),
        r matches Ok(Some(v)) ==> v@.len() == point_count(*glyph),
{
    proof {
        match glyph {
            Glyph::Simple(g) => {
                let ends = g.end_pts_of_contours@;
                assert(ends.last() == ends[ends.len() - 1]);
            },
            _ => {},
        }
    }
    let num_points = glyph.number_of_points() + PHANTOM_POINT_COUNT;
    let ghost n = num_points as nat;
    let variations = match gvar.glyph_variation_data(glyph_index) {
        Err(e) => return Err(e),
        Ok(None) => return Ok(None),
        Ok(Some(v)) => v,
    };
    let shared = match &variations.shared_point_numbers {
        Some(p) => Some(p),
        None => None,
    };
    let applicable = match determine_applicable(gvar, instance, variations) {
        Ok(a) => a,
        Err(e) => return Err(e),
    };
    let ghost app = applicable@;
    proof {
        assert(variations.headers@.len() <= MAX_TUPLE_VARIATIONS);
        crate::scalar::lemma_applicable_upto(variations.headers@, *gvar, instance@, variations.headers@.len());
    }
    let mut final_deltas = zero_deltas(num_points);
    let mut region_deltas = zero_deltas(num_points);
    proof {
        assert(deltas_view(final_deltas@) =~= Seq::new(n, |i: int| (0, 0)));
    }
    let mut a: usize = 0;
    while a < applicable.len()
        invariant
            glyph.wf(),
            a <= app.len(),
            app == applicable@,
            applicable_tuples(*variations, *gvar, instance@) == Ok::<Seq<(u64, usize)>, ParseError>(app),
            glyph_index < gvar.glyph_variation_data@.len(),
            gvar.glyph_variation_data@[glyph_index as int] == Some(*variations),
            app.len() <= MAX_TUPLE_VARIATIONS,
            forall|i: int| 0 <= i < app.len() ==> {
                let x = #[trigger] app[i];
                &&& x.1 < variations.headers@.len()
                &&& 0 < x.0 <= SCALAR_ONE
            },
            n == num_points,
            n == point_count(*glyph),
            owned(shared) == variations.shared_point_numbers,
            final_deltas@.len() == n,
            region_deltas@.len() == n,
            accumulated(*glyph, *variations, app, n, a as nat) == Ok::<Seq<(int, int)>, ParseError>(deltas_view(final_deltas@)),
            forall|i: int| 0 <= i < n ==> abs(#[trigger] final_deltas@[i].x as int) <= sum_bound(a as int)
                && abs(final_deltas@[i].y as int) <= sum_bound(a as int),
        decreases app.len() - a,
    {
        let (s, h) = applicable[a];
        let explicit = match variations.headers[h].variation_data(num_points, shared) {
            Ok(e) => e,
            Err(e) => {
                proof {
                    assert(app[a as int] == (s, h));
                    assert(accumulated(*glyph, *variations, app, n, (a + 1) as nat) == Err::<Seq<(int, int)>, ParseError>(e));
                    lemma_accumulated_error_stands(*glyph, *variations, app, n, (a + 1) as nat, app.len());
                }
                return Err(e);
            },
        };
        let mut i: usize = 0;
        while i < num_points
            invariant
                i <= n,
                n == num_points,
                region_deltas@.len() == n,
                forall|k: int| 0 <= k < i ==> region_deltas@[k].is((0, 0)),
            decreases n - i,
        {
            region_deltas.set(i, Delta::zero());
            i = i + 1;
        }
        write_explicit_deltas(&mut region_deltas, &explicit);
        match glyph {
            Glyph::Simple(simple_glyph) => {
                if explicit.len() != num_points {
                    infer_unreferenced_points(&mut region_deltas, &explicit, simple_glyph);
                } else {
                    proof {
                        lemma_all_explicit(explicit@, n);
                    }
                }
            },
            _ => {},
        }
        proof {
            assert forall|t: int| 0 <= t < n implies #[trigger] region_deltas@[t].is(region_delta(*glyph, explicit@, t))
                && delta_in_range(region_delta(*glyph, explicit@, t)) by {
                lemma_region_delta_range(*glyph, explicit@, t);
            }
        }
        let ghost before = final_deltas@;
        let mut i: usize = 0;
        while i < num_points
            invariant
                i <= n,
                n == num_points,
                a < app.len(),
                app.len() <= MAX_TUPLE_VARIATIONS,
                s <= SCALAR_ONE,
                region_deltas@.len() == n,
                final_deltas@.len() == n,
                before.len() == n,
                forall|t: int| 0 <= t < n ==> #[trigger] region_deltas@[t].is(region_delta(*glyph, explicit@, t))
                    && delta_in_range(region_delta(*glyph, explicit@, t)),
                forall|t: int| 0 <= t < n ==> abs(#[trigger] before[t].x as int) <= sum_bound(a as int)
                    && abs(before[t].y as int) <= sum_bound(a as int),
                forall|t: int| 0 <= t < i ==> #[trigger] final_deltas@[t].x == before[t].x + scale_delta(region_delta(*glyph, explicit@, t).0, s as int)
                    && final_deltas@[t].y == before[t].y + scale_delta(region_delta(*glyph, explicit@, t).1, s as int),
                forall|t: int| 0 <= t < i ==> abs(#[trigger] final_deltas@[t].x as int) <= sum_bound(a + 1)
                    && abs(final_deltas@[t].y as int) <= sum_bound(a + 1),
                forall|t: int| i <= t < n ==> #[trigger] final_deltas@[t] == before[t],
            decreases n - i,
        {
            let r = region_deltas[i];
            let f = final_deltas[i];
            proof {
                assert(region_deltas@[i as int].is(region_delta(*glyph, explicit@, i as int)));
                assert(abs(before[i as int].x as int) <= sum_bound(a as int));
                assert(sum_bound(a + 1) == sum_bound(a as int) + 0x4_0000_0000_0000);
                assert(sum_bound(a + 1) <= 0x1000 * 0x4_0000_0000_0000);
            }
            let dx = scale(r.x, s);
            let dy = scale(r.y, s);
            final_deltas.set(i, Delta { x: f.x + dx, y: f.y + dy });
            i = i + 1;
        }
        proof {
            let prev = accumulated(*glyph, *variations, app, n, a as nat);
            assert(app[a as int] == (s, h));
            assert(variations.headers@[h as int].spec_explicit_deltas(variations.shared_point_numbers, n) == Ok::<Seq<ExplicitDelta>, ParseError>(explicit@));
            assert(deltas_view(final_deltas@) =~= Seq::new(
                n,
                |t: int|
                    (
                        deltas_view(before)[t].0 + scale_delta(region_delta(*glyph, explicit@, t).0, s as int),
                        deltas_view(before)[t].1 + scale_delta(region_delta(*glyph, explicit@, t).1, s as int),
                    ),
            ));
        }
        a = a + 1;
    }
    Ok(Some(final_deltas))
}

} // verus!
