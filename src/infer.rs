//! Inferred deltas for the points of a simple glyph that a tuple does not
//! reference.

use vstd::prelude::*;

use crate::glyph::{Point, SimpleGlyph, SimpleGlyphFlag};
use crate::gvar::{explicit_deltas_wf, ExplicitDelta};
use crate::numeric::{abs, div_toward_zero, quotient_toward_zero, Delta, DELTA_ONE};

verus! {

/// The number of leading items of `s` that are less than `v`: in a sorted
/// sequence, the position of the first item that is at least `v`.
pub open spec fn count_below(s: Seq<int>, v: int) -> nat
    decreases s.len(),
{
    if s.len() == 0 {
        0
    } else if s[0] >= v {
        0
    } else {
        1 + count_below(s.subrange(1, s.len() as int), v)
    }
}

pub open spec fn sorted(s: Seq<int>) -> bool {
    forall|i: int, j: int| 0 <= i <= j < s.len() ==> s[i] <= s[j]
}

/// The point numbers of explicit deltas.
pub open spec fn point_numbers_of(ex: Seq<ExplicitDelta>) -> Seq<int> {
    ex.map_values(|d: ExplicitDelta| d.number as int)
}

/// The contour end indices of a simple glyph.
pub open spec fn contour_ends(g: SimpleGlyph) -> Seq<int> {
    g.end_pts_of_contours@.map_values(|e: u16| e as int)
}

/// The first point of contour `k`.
pub open spec fn contour_first(ends: Seq<int>, k: int) -> int {
    if k == 0 {
        0
    } else {
        ends[k - 1] + 1
    }
}

/// Where the explicit delta of point `t` is, or would be, in `ex`.
pub open spec fn explicit_index(ex: Seq<ExplicitDelta>, t: int) -> int {
    count_below(point_numbers_of(ex), t) as int
}

/// Point `t` has an explicit delta in `ex`.
pub open spec fn is_explicit(ex: Seq<ExplicitDelta>, t: int) -> bool {
    let j = explicit_index(ex, t);
    j < ex.len() && ex[j].number == t
}

/// An explicit delta as a 16.16 vector.
pub open spec fn scaled_explicit(d: ExplicitDelta) -> (int, int) {
    (d.x * DELTA_ONE, d.y * DELTA_ONE)
}

/// The delta of point `t` before inference: its explicit delta, or zero.
pub open spec fn explicit_or_zero(ex: Seq<ExplicitDelta>, t: int) -> (int, int) {
    if is_explicit(ex, t) {
        scaled_explicit(ex[explicit_index(ex, t)])
    } else {
        (0, 0)
    }
}

/// The inferred delta along one axis, as a 16.16 value, of a point at `ct`
/// whose referenced neighbours lie at `cp` and `cn` with deltas `dp` and
/// `dn`. Between the neighbours it is `dp + (ct - cp) / (cn - cp) * (dn - dp)`,
/// the fraction rounded toward zero.
pub open spec fn infer_axis(cp: int, ct: int, cn: int, dp: int, dn: int) -> int {
    if cp == cn {
        if dp == dn {
            dp * DELTA_ONE
        } else {
            0
        }
    } else if ct <= cp && ct <= cn {
        if cp < cn {
            dp * DELTA_ONE
        } else {
            dn * DELTA_ONE
        }
    } else if ct >= cp && ct >= cn {
        if cp > cn {
            dp * DELTA_ONE
        } else {
            dn * DELTA_ONE
        }
    } else {
        dp * DELTA_ONE + div_toward_zero((ct - cp) * (dn - dp) * DELTA_ONE, cn - cp)
    }
}

/// The inferred delta of point `t` from its referenced neighbours.
pub open spec fn inferred(coords: Seq<(SimpleGlyphFlag, Point)>, t: int, prev: ExplicitDelta, next: ExplicitDelta) -> (int, int) {
    let p = coords[prev.number as int].1;
    let c = coords[t].1;
    let q = coords[next.number as int].1;
    (
        infer_axis(p.0 as int, c.0 as int, q.0 as int, prev.x as int, next.x as int),
        infer_axis(p.1 as int, c.1 as int, q.1 as int, prev.y as int, next.y as int),
    )
}

/// The delta of point `t` of a simple glyph for a tuple with explicit deltas
/// `ex`. An explicit delta stands. A point of a contour that no explicit
/// delta references keeps zero. Otherwise the delta is inferred from the
/// nearest referenced points of the contour: the first at or after `t`, else
/// the first of the contour; and the last before `t`, else the last of the
/// contour (`lemma_nearest_referenced` shows that the positions read are
/// these). Phantom points take no inferred delta.
pub open spec fn simple_region_delta(g: SimpleGlyph, ex: Seq<ExplicitDelta>, t: int) -> (int, int) {
    if is_explicit(ex, t) || t >= g.coordinates@.len() {
        explicit_or_zero(ex, t)
    } else {
        let ends = contour_ends(g);
        let k = count_below(ends, t) as int;
        let nums = point_numbers_of(ex);
        let lo = count_below(nums, contour_first(ends, k)) as int;
        let hi = count_below(nums, ends[k] + 1) as int;
        if lo == hi {
            (0, 0)
        } else {
            let j = explicit_index(ex, t);
            let next = if j < hi { j } else { lo };
            let prev = if j > lo { j - 1 } else { hi - 1 };
            inferred(g.coordinates@, t, ex[prev], ex[next])
        }
    }
}

/// `count_below` is the position of the first item that is at least `v`.
pub proof fn lemma_count_below(s: Seq<int>, v: int)
    ensures
        count_below(s, v) <= s.len(),
        forall|k: int| 0 <= k < count_below(s, v) ==> s[k] < v,
        count_below(s, v) < s.len() ==> s[count_below(s, v) as int] >= v,
    decreases s.len(),
{
    if s.len() > 0 && s[0] < v {
        let rest = s.subrange(1, s.len() as int);
        lemma_count_below(rest, v);
        assert forall|k: int| 0 <= k < count_below(s, v) implies s[k] < v by {
            if k > 0 {
                assert(s[k] == rest[k - 1]);
            }
        }
    }
}

/// In a sorted sequence, exactly the items before `count_below` are less
/// than `v`.
pub proof fn lemma_count_below_sorted(s: Seq<int>, v: int)
    requires
        sorted(s),
    ensures
        count_below(s, v) <= s.len(),
        forall|k: int| 0 <= k < s.len() ==> (s[k] < v <==> k < count_below(s, v)),
{
    lemma_count_below(s, v);
}

/// The position found by a scan that stops at the first item that is at
/// least `v` is `count_below`.
pub proof fn lemma_count_below_at(s: Seq<int>, v: int, i: int)
    requires
        0 <= i <= s.len(),
        forall|k: int| 0 <= k < i ==> s[k] < v,
        i == s.len() || s[i] >= v,
    ensures
        count_below(s, v) == i,
{
    lemma_count_below(s, v);
}

/// Explicit deltas in ascending order have sorted point numbers.
pub proof fn lemma_numbers_sorted(ex: Seq<ExplicitDelta>, n: nat)
    requires
        explicit_deltas_wf(ex, n),
    ensures
        sorted(point_numbers_of(ex)),
        point_numbers_of(ex).len() == ex.len(),
        forall|k: int| 0 <= k < ex.len() ==> #[trigger] point_numbers_of(ex)[k] == ex[k].number as int,
{
    let nums = point_numbers_of(ex);
    assert forall|i: int, j: int| 0 <= i <= j < nums.len() implies nums[i] <= nums[j] by {
        if i < j {
            assert(ex[i].number < ex[j].number);
        }
    }
}

/// The contour end indices of a well-formed glyph are sorted.
proof fn lemma_ends_sorted(g: SimpleGlyph)
    requires
        g.wf(),
    ensures
        sorted(contour_ends(g)),
        contour_ends(g).len() == g.end_pts_of_contours@.len(),
        forall|k: int| 0 <= k < contour_ends(g).len() ==> #[trigger] contour_ends(g)[k] == g.end_pts_of_contours@[k] as int,
{
    let ends = contour_ends(g);
    let raw = g.end_pts_of_contours@;
    assert forall|i: int, j: int| 0 <= i <= j < ends.len() implies ends[i] <= ends[j] by {
        if i < j {
            assert(raw[i] < raw[j]);
        }
    }
}

/// A point between the first and the last point of contour `k` belongs to
/// contour `k`.
proof fn lemma_contour_of(g: SimpleGlyph, k: int, t: int)
    requires
        g.wf(),
        0 <= k < g.end_pts_of_contours@.len(),
        contour_first(contour_ends(g), k) <= t <= contour_ends(g)[k],
    ensures
        count_below(contour_ends(g), t) == k,
{
    let ends = contour_ends(g);
    lemma_ends_sorted(g);
    lemma_count_below_sorted(ends, t);
    if k > 0 {
        assert forall|i: int| 0 <= i < k implies ends[i] < t by {
            assert(ends[i] <= ends[k - 1]);
        }
    }
    if count_below(ends, t) > k {
        assert(ends[k] < t);
    }
}

/// The position in `explicit` of the first delta whose point number is at
/// least `v`.
fn position_at_or_above(explicit: &Vec<ExplicitDelta>, v: usize) -> (r: usize)
    ensures
        r == count_below(point_numbers_of(explicit@), v as int),
{
    let ghost nums = point_numbers_of(explicit@);
    let mut i: usize = 0;
    while i < explicit.len() && explicit[i].number < v
        invariant
            i <= explicit@.len(),
            nums == point_numbers_of(explicit@),
            forall|k: int| 0 <= k < i ==> nums[k] < v,
        decreases explicit@.len() - i,
    {
        i = i + 1;
    }
    proof {
        lemma_count_below_at(nums, v as int, i as int);
    }
    i
}

/// The positions that `simple_region_delta` reads are the nearest referenced
/// points. Within a contour from `first` to `last`, the referenced points sit
/// at positions `lo` to `hi - 1`. For an unreferenced point `t` of it, with
/// `j` its `explicit_index`: where `j < hi`, position `j` holds the first
/// referenced point after `t`, and otherwise none follows `t` in the contour;
/// where `j > lo`, position `j - 1` holds the last referenced point before
/// `t`, and otherwise none precedes it.
pub proof fn lemma_nearest_referenced(ex: Seq<ExplicitDelta>, n: nat, first: int, last: int, t: int)
    requires
        explicit_deltas_wf(ex, n),
        first <= t <= last,
        !is_explicit(ex, t),
    ensures
        ({
            let nums = point_numbers_of(ex);
            let lo = count_below(nums, first) as int;
            let hi = count_below(nums, last + 1) as int;
            let j = explicit_index(ex, t);
            &&& lo <= j <= hi
            &&& forall|k: int| 0 <= k < ex.len() ==> (lo <= k < hi <==> first <= #[trigger] ex[k].number <= last)
            &&& j < hi ==> t < ex[j].number && forall|k: int|
                0 <= k < ex.len() && t <= #[trigger] ex[k].number <= last ==> ex[j].number <= ex[k].number
            &&& j == hi ==> forall|k: int| 0 <= k < ex.len() ==> !(t <= #[trigger] ex[k].number <= last)
            &&& j > lo ==> ex[j - 1].number < t && forall|k: int|
                0 <= k < ex.len() && first <= #[trigger] ex[k].number < t ==> ex[k].number <= ex[j - 1].number
            &&& j == lo ==> forall|k: int| 0 <= k < ex.len() ==> !(first <= #[trigger] ex[k].number < t)
        }),
{
    let nums = point_numbers_of(ex);
    lemma_numbers_sorted(ex, n);
    lemma_count_below_sorted(nums, first);
    lemma_count_below_sorted(nums, last + 1);
    lemma_count_below_sorted(nums, t);
    let lo = count_below(nums, first) as int;
    let hi = count_below(nums, last + 1) as int;
    let j = explicit_index(ex, t);
    if j < lo {
        assert(nums[j] >= t);
    }
    if j > hi {
        assert(nums[hi] < t);
    }
    if j < hi {
        assert(ex[j].number != t);
        assert(nums[j] >= t);
    }
    if j > lo {
        assert(nums[j - 1] < t);
    }
    assert forall|k: int| 0 <= k < ex.len() implies (lo <= k < hi <==> first <= #[trigger] ex[k].number <= last) by {
        assert(nums[k] == ex[k].number);
    }
    assert forall|k: int| 0 <= k < ex.len() && t <= #[trigger] ex[k].number <= last implies j <= k by {
        assert(nums[k] == ex[k].number);
    }
    assert forall|k: int| 0 <= k < ex.len() && first <= #[trigger] ex[k].number < t implies k < j by {
        assert(nums[k] == ex[k].number);
    }
    if j < hi {
        assert forall|k: int| 0 <= k < ex.len() && t <= #[trigger] ex[k].number <= last implies ex[j].number
            <= ex[k].number by {
            assert(nums[j] <= nums[k]);
        }
    }
    if j > lo {
        assert forall|k: int| 0 <= k < ex.len() && first <= #[trigger] ex[k].number < t implies ex[k].number
            <= ex[j - 1].number by {
            assert(nums[k] <= nums[j - 1]);
        }
    }
}

/// A 16.16 delta of this size or less is within reach of every sum the
/// engine forms.
pub open spec fn delta_in_range(v: (int, int)) -> bool {
    abs(v.0) < 0x4_0000_0000_0000 && abs(v.1) < 0x4_0000_0000_0000
}

/// An inferred delta between 16-bit coordinates and deltas is in range.
pub proof fn lemma_infer_axis_in_range()
    ensures
        forall|cp: i16, ct: i16, cn: i16, dp: i16, dn: i16|
            abs(#[trigger] infer_axis(cp as int, ct as int, cn as int, dp as int, dn as int)) < 0x4_0000_0000_0000,
{
    assert forall|cp: i16, ct: i16, cn: i16, dp: i16, dn: i16|
        abs(#[trigger] infer_axis(cp as int, ct as int, cn as int, dp as int, dn as int)) < 0x4_0000_0000_0000 by {
        lemma_infer_axis_range(cp as int, ct as int, cn as int, dp as int, dn as int);
    }
}

proof fn lemma_infer_axis_range(cp: int, ct: int, cn: int, dp: int, dn: int)
    requires
        -0x8000 <= cp < 0x8000,
        -0x8000 <= ct < 0x8000,
        -0x8000 <= cn < 0x8000,
        -0x8000 <= dp < 0x8000,
        -0x8000 <= dn < 0x8000,
    ensures
        abs(infer_axis(cp, ct, cn, dp, dn)) < 0x4_0000_0000_0000,
{
    let a = (ct - cp) * (dn - dp) * DELTA_ONE;
    assert(abs(a) <= 0xFFFF * 0xFFFF * 0x10000) by (nonlinear_arith)
        requires a == (ct - cp) * (dn - dp) * 0x10000, -0xFFFF <= ct - cp <= 0xFFFF, -0xFFFF <= dn - dp <= 0xFFFF;
    if cn != cp {
        let q = div_toward_zero(a, cn - cp);
        assert(abs(a) / abs(cn - cp) <= abs(a)) by (nonlinear_arith)
            requires abs(cn - cp) >= 1, abs(a) >= 0;
        assert(abs(q) <= abs(a));
    }
}

/// The inferred delta along one axis, as a 16.16 value.
fn do_infer(prev_coord: i16, target_coord: i16, next_coord: i16, prev_delta: i16, next_delta: i16) -> (r: i64)
    ensures
        r == infer_axis(prev_coord as int, target_coord as int, next_coord as int, prev_delta as int, next_delta as int),
{
    if prev_coord == next_coord {
        if prev_delta == next_delta {
            prev_delta as i64 * DELTA_ONE
        } else {
            0
        }
    } else if target_coord <= prev_coord && target_coord <= next_coord {
        // not between the neighbours: the delta of the lower one
        if prev_coord < next_coord {
            prev_delta as i64 * DELTA_ONE
        } else {
            next_delta as i64 * DELTA_ONE
        }
    } else if target_coord >= prev_coord && target_coord >= next_coord {
        // not between the neighbours: the delta of the higher one
        if prev_coord > next_coord {
            prev_delta as i64 * DELTA_ONE
        } else {
            next_delta as i64 * DELTA_ONE
        }
    } else {
        let offset: i64 = target_coord as i64 - prev_coord as i64;
        let span: i64 = next_delta as i64 - prev_delta as i64;
        proof {
            assert(offset * span * DELTA_ONE <= 0xFFFF * 0xFFFF * 0x10000) by (nonlinear_arith)
                requires -0xFFFF <= offset <= 0xFFFF, -0xFFFF <= span <= 0xFFFF, DELTA_ONE == 0x10000;
            assert(offset * span * DELTA_ONE >= -(0xFFFF * 0xFFFF * 0x10000)) by (nonlinear_arith)
                requires -0xFFFF <= offset <= 0xFFFF, -0xFFFF <= span <= 0xFFFF, DELTA_ONE == 0x10000;
            assert(abs(offset * span) <= 0xFFFF * 0xFFFF) by (nonlinear_arith)
                requires -0xFFFF <= offset <= 0xFFFF, -0xFFFF <= span <= 0xFFFF;
        }
        let num: i64 = offset * span * DELTA_ONE;
        let den: i64 = next_coord as i64 - prev_coord as i64;
        let q = quotient_toward_zero(num, den);
        prev_delta as i64 * DELTA_ONE + q
    }
}

/// The inferred delta of point `target` from its referenced neighbours.
fn infer_delta(target: usize, prev: ExplicitDelta, next: ExplicitDelta, coordinates: &Vec<(SimpleGlyphFlag, Point)>) -> (r: Delta)
    requires
        target < coordinates@.len(),
        prev.number < coordinates@.len(),
        next.number < coordinates@.len(),
    ensures
        r.is(inferred(coordinates@, target as int, prev, next)),
{
    let prev_coord = coordinates[prev.number].1;
    let target_coord = coordinates[target].1;
    let next_coord = coordinates[next.number].1;
    let x = do_infer(prev_coord.0, target_coord.0, next_coord.0, prev.x, next.x);
    let y = do_infer(prev_coord.1, target_coord.1, next_coord.1, prev.y, next.y);
    Delta { x, y }
}

/// Points `first` to `last` make up one contour of the glyph.
pub open spec fn is_contour(g: SimpleGlyph, first: int, last: int) -> bool {
    let ends = contour_ends(g);
    forall|t: int|
        first <= t <= last ==> #[trigger] count_below(ends, t) < ends.len() && contour_first(ends, count_below(ends, t) as int)
            == first && ends[count_below(ends, t) as int] == last
}

/// Infers the deltas of the unreferenced points of the contour from `first`
/// to `last`, whose explicit deltas stand at positions `lo` to `hi - 1`.
fn infer_contour(
    first: usize,
    last: usize,
    lo: usize,
    hi: usize,
    deltas: &mut Vec<Delta>,
    explicit: &Vec<ExplicitDelta>,
    simple_glyph: &SimpleGlyph,
)
    requires
        simple_glyph.wf(),
        explicit_deltas_wf(explicit@, old(deltas)@.len()),
        simple_glyph.coordinates@.len() <= old(deltas)@.len(),
        first <= last < simple_glyph.coordinates@.len(),
        is_contour(*simple_glyph, first as int, last as int),
        lo == count_below(point_numbers_of(explicit@), first as int),
        hi == count_below(point_numbers_of(explicit@), last + 1),
        lo < hi,
        forall|t: int| first <= t <= last ==> old(deltas)@[t].is(explicit_or_zero(explicit@, t)),
    ensures
        final(deltas)@.len() == old(deltas)@.len(),
        forall|t: int| first <= t <= last ==> final(deltas)@[t].is(simple_region_delta(*simple_glyph, explicit@, t)),
        forall|t: int| 0 <= t < old(deltas)@.len() && !(first <= t <= last) ==> final(deltas)@[t] == old(deltas)@[t],
{
    let ghost nums = point_numbers_of(explicit@);
    let ghost n = old(deltas)@.len();
    proof {
        let ends = simple_glyph.end_pts_of_contours@;
        assert(ends.last() == ends[ends.len() - 1]);
        lemma_numbers_sorted(explicit@, n);
        lemma_count_below_sorted(nums, first as int);
        lemma_count_below_sorted(nums, last + 1);
    }
    let mut target: usize = first;
    while target <= last
        invariant
            first <= target <= last + 1,
            deltas@.len() == n,
            nums == point_numbers_of(explicit@),
            sorted(nums),
            nums.len() == explicit@.len(),
            forall|k: int| 0 <= k < explicit@.len() ==> #[trigger] nums[k] == explicit@[k].number as int,
            forall|k: int| 0 <= k < nums.len() ==> (nums[k] < first <==> k < lo),
            forall|k: int| 0 <= k < nums.len() ==> (nums[k] < last + 1 <==> k < hi),
            lo < hi <= nums.len(),
            lo == count_below(nums, first as int),
            hi == count_below(nums, last + 1),
            last < simple_glyph.coordinates@.len(),
            simple_glyph.coordinates@.len() <= n,
            simple_glyph.coordinates@.len() <= 0x10000,
            forall|t: int| first <= t <= last ==> old(deltas)@[t].is(explicit_or_zero(explicit@, t)),
            is_contour(*simple_glyph, first as int, last as int),
            forall|t: int| first <= t < target ==> deltas@[t].is(simple_region_delta(*simple_glyph, explicit@, t)),
            forall|t: int| target <= t <= last ==> deltas@[t] == old(deltas)@[t],
            forall|t: int| 0 <= t < n && !(first <= t <= last) ==> deltas@[t] == old(deltas)@[t],
        decreases last + 1 - target,
    {
        let j = position_at_or_above(explicit, target);
        proof {
            lemma_count_below_sorted(nums, target as int);
            if j > hi {
                assert(nums[hi as int] < target);
            }
            if j < lo {
                assert(nums[j as int] >= target);
            }
        }
        if j < explicit.len() && explicit[j].number == target {
            // an explicit delta stands
            proof {
                assert(is_explicit(explicit@, target as int));
            }
        } else {
            let next = if j < hi { j } else { lo };
            let prev = if j > lo { j - 1 } else { hi - 1 };
            proof {
                assert(nums[prev as int] < last + 1);
                assert(nums[next as int] < last + 1);
            }
            let d = infer_delta(target, explicit[prev], explicit[next], &simple_glyph.coordinates);
            proof {
                let t = target as int;
                assert(!is_explicit(explicit@, t));
                assert(count_below(contour_ends(*simple_glyph), t) < contour_ends(*simple_glyph).len());
            }
            deltas.set(target, d);
            proof {
                let t = target as int;
                let ends = contour_ends(*simple_glyph);
                let c = count_below(ends, t) as int;
                assert(contour_first(ends, c) == first);
                assert(ends[c] == last);
                assert(!is_explicit(explicit@, t));
            }
        }
        target = target + 1;
    }
}

/// Gives every point of a simple glyph that the explicit deltas do not
/// reference the delta that the contour it belongs to implies; phantom points
/// keep theirs.
pub fn infer_unreferenced_points(deltas: &mut Vec<Delta>, explicit: &Vec<ExplicitDelta>, simple_glyph: &SimpleGlyph)
    requires
        simple_glyph.wf(),
        explicit_deltas_wf(explicit@, old(deltas)@.len()),
        simple_glyph.coordinates@.len() <= old(deltas)@.len(),
        forall|t: int| 0 <= t < old(deltas)@.len() ==> old(deltas)@[t].is(explicit_or_zero(explicit@, t)),
    ensures
        final(deltas)@.len() == old(deltas)@.len(),
        forall|t: int| 0 <= t < final(deltas)@.len() ==> final(deltas)@[t].is(simple_region_delta(*simple_glyph, explicit@, t)),
{
    let ghost nums = point_numbers_of(explicit@);
    let ghost ends = contour_ends(*simple_glyph);
    let ghost n = old(deltas)@.len();
    proof {
        lemma_numbers_sorted(explicit@, n);
        lemma_ends_sorted(*simple_glyph);
    }
    let mut begin: usize = 0;
    let mut k: usize = 0;
    while k < simple_glyph.end_pts_of_contours.len()
        invariant
            simple_glyph.wf(),
            k <= ends.len(),
            ends == contour_ends(*simple_glyph),
            ends.len() == simple_glyph.end_pts_of_contours@.len(),
            sorted(ends),
            forall|i: int| 0 <= i < ends.len() ==> #[trigger] ends[i] == simple_glyph.end_pts_of_contours@[i] as int,
            k < ends.len() ==> begin == contour_first(ends, k as int),
            k == ends.len() ==> begin == simple_glyph.coordinates@.len(),
            deltas@.len() == n,
            simple_glyph.coordinates@.len() <= n,
            explicit_deltas_wf(explicit@, n),
            nums == point_numbers_of(explicit@),
            sorted(nums),
            nums.len() == explicit@.len(),
            forall|i: int| 0 <= i < explicit@.len() ==> #[trigger] nums[i] == explicit@[i].number as int,
            forall|t: int| 0 <= t < begin ==> deltas@[t].is(simple_region_delta(*simple_glyph, explicit@, t)),
            forall|t: int| begin <= t < n ==> deltas@[t].is(explicit_or_zero(explicit@, t)),
        decreases ends.len() - k,
    {
        let first = begin;
        let last = simple_glyph.end_pts_of_contours[k] as usize;
        proof {
            assert(ends[k as int] == last);
            if k > 0 {
                assert(simple_glyph.end_pts_of_contours@[k - 1] < simple_glyph.end_pts_of_contours@[k as int]);
            }
            assert(ends.last() == ends[ends.len() - 1]);
            assert(last <= ends.last());
            assert forall|t: int| first <= t <= last implies count_below(ends, t) == k by {
                lemma_contour_of(*simple_glyph, k as int, t);
            }
            lemma_count_below_sorted(nums, first as int);
            lemma_count_below_sorted(nums, last + 1);
        }
        let lo = position_at_or_above(explicit, first);
        let hi = position_at_or_above(explicit, last + 1);
        proof {
            if hi < lo {
                assert(nums[hi as int] < first);
            }
            assert(contour_first(ends, k as int) == first);
            assert(last < simple_glyph.coordinates@.len());
        }
        if hi == lo {
            // no point of the contour is referenced: it keeps zero deltas
            proof {
                assert forall|t: int| first <= t <= last implies deltas@[t].is(simple_region_delta(*simple_glyph, explicit@, t)) by {
                    lemma_count_below_sorted(nums, t);
                    let j = explicit_index(explicit@, t);
                    if j < explicit@.len() && explicit@[j].number == t {
                        assert(nums[j] == t);
                        assert(j < hi);
                        assert(j >= lo);
                    }
                    assert(!is_explicit(explicit@, t));
                    assert(count_below(ends, t) == k);
                    assert(t < simple_glyph.coordinates@.len());
                    assert(begin <= t < n);
                    assert(deltas@[t].is(explicit_or_zero(explicit@, t)));
                    assert(deltas@[t].is((0, 0)));
                    assert(count_below(nums, contour_first(ends, k as int)) == lo);
                    assert(count_below(nums, ends[k as int] + 1) == hi);
                }
            }
        } else if hi - lo == 1 {
            // one point of the contour is referenced: all take its delta
            let reference = Delta {
                x: explicit[lo].x as i64 * DELTA_ONE,
                y: explicit[lo].y as i64 * DELTA_ONE,
            };
            let ghost before = deltas@;
            let mut t: usize = first;
            while t <= last
                invariant
                    first <= t <= last + 1,
                    last < n,
                    last <= 0xFFFF,
                    deltas@.len() == n,
                    before.len() == n,
                    forall|i: int| first <= i < t ==> deltas@[i] == reference,
                    forall|i: int| 0 <= i < n && !(first <= i < t) ==> deltas@[i] == before[i],
                decreases last + 1 - t,
            {
                deltas.set(t, reference);
                t = t + 1;
            }
            proof {
                assert forall|t: int| first <= t <= last implies deltas@[t].is(simple_region_delta(*simple_glyph, explicit@, t)) by {
                    lemma_count_below_sorted(nums, t);
                    let j = explicit_index(explicit@, t);
                    assert(count_below(ends, t) == k);
                    assert(count_below(nums, contour_first(ends, k as int)) == lo);
                    assert(count_below(nums, ends[k as int] + 1) == hi);
                    assert(t < simple_glyph.coordinates@.len());
                    if j > hi {
                        assert(nums[hi as int] < t);
                    }
                    if j < lo {
                        assert(nums[j] >= t);
                    }
                    if is_explicit(explicit@, t) {
                        assert(j == lo);
                    } else {
                        let p = simple_glyph.coordinates@[explicit@[lo as int].number as int].1;
                        let c = simple_glyph.coordinates@[t].1;
                        assert(infer_axis(p.0 as int, c.0 as int, p.0 as int, explicit@[lo as int].x as int, explicit@[lo as int].x as int) == explicit@[lo as int].x * DELTA_ONE);
                        assert(infer_axis(p.1 as int, c.1 as int, p.1 as int, explicit@[lo as int].y as int, explicit@[lo as int].y as int) == explicit@[lo as int].y * DELTA_ONE);
                    }
                }
            }
        } else {
            proof {
                assert(is_contour(*simple_glyph, first as int, last as int));
            }
            infer_contour(first, last, lo, hi, deltas, explicit, simple_glyph);
        }
        begin = last + 1;
        k = k + 1;
    }
}

} // verus!
