//! The applicability scalar of each region of the design space.

use vstd::prelude::*;

use crate::coordinates::{axis_values_of, AxisValues, Coordinates};
use crate::error::ParseError;
use crate::gvar::{GvarTable, TupleVariationHeader, TupleVariationStore};
use crate::numeric::{raw_values, F2Dot14, SCALAR_ONE};

verus! {

/// The scalar of one axis, in units of `1 / SCALAR_ONE`, for the region
/// `[start, end]` that peaks at `peak`, at the instance coordinate `v`.
pub open spec fn axis_scalar(start: int, end: int, peak: int, v: int) -> int {
    let one = SCALAR_ONE as int;
    if peak == 0 {
        one
    } else if v < start || v > end {
        0
    } else if v == peak {
        one
    } else if v < peak {
        (v - start) * one / (peak - start)
    } else {
        (end - v) * one / (end - peak)
    }
}

/// The number of axes of a region: those that its start, end and peak all
/// give.
pub open spec fn region_axes(start: Seq<i16>, end: Seq<i16>, peak: Seq<i16>) -> nat {
    let a = if start.len() < end.len() { start.len() } else { end.len() };
    if a < peak.len() { a } else { peak.len() }
}

/// The instance's coordinate on axis `i`; an axis that the instance does not
/// give is at its default, zero.
pub open spec fn coordinate_at(instance: Seq<i16>, i: int) -> int {
    if 0 <= i < instance.len() {
        instance[i] as int
    } else {
        0
    }
}

/// The product of the axis scalars of the first `k` axes, each step rounded
/// down to a multiple of `1 / SCALAR_ONE`.
pub open spec fn scalar_over(start: Seq<i16>, end: Seq<i16>, peak: Seq<i16>, instance: Seq<i16>, k: nat) -> int
    decreases k,
{
    if k == 0 {
        SCALAR_ONE as int
    } else {
        let i = k - 1;
        scalar_over(start, end, peak, instance, (k - 1) as nat) * axis_scalar(
            start[i] as int,
            end[i] as int,
            peak[i] as int,
            coordinate_at(instance, i),
        ) / (SCALAR_ONE as int)
    }
}

/// The scalar of a region at an instance: the product over the region's
/// axes.
pub open spec fn region_scalar(start: Seq<i16>, end: Seq<i16>, peak: Seq<i16>, instance: Seq<i16>) -> int {
    scalar_over(start, end, peak, instance, region_axes(start, end, peak))
}

/// The start of the region implied by a peak: the peak on axes where it is
/// negative, zero elsewhere, and the peak itself where it is zero.
pub open spec fn implicit_start(peak: Seq<i16>) -> Seq<i16> {
    peak.map_values(|p: i16| if p > 0 { 0i16 } else { p })
}

/// The end of the region implied by a peak: the peak on axes where it is
/// positive, zero elsewhere, and the peak itself where it is zero.
pub open spec fn implicit_end(peak: Seq<i16>) -> Seq<i16> {
    peak.map_values(|p: i16| if p < 0 { 0i16 } else { p })
}

/// The scalar of a tuple variation at an instance. Where its peak cannot be
/// found it is zero, but such a tuple makes `applicable_upto` an error.
pub open spec fn header_scalar(h: TupleVariationHeader, gvar: GvarTable, instance: Seq<F2Dot14>) -> int {
    match h.spec_peak_tuple(&gvar) {
        None => 0,
        Some(peak) => {
            let p = raw_values(peak);
            match h.intermediate_region {
                Some((s, e)) => region_scalar(raw_values(s@), raw_values(e@), p, raw_values(instance)),
                None => region_scalar(implicit_start(p), implicit_end(p), p, raw_values(instance)),
            }
        },
    }
}

/// The tuple variations among the first `k` that apply at the instance, each
/// with its scalar and its position, in order. A tuple whose peak cannot be
/// found makes the store corrupt: a bad index.
pub open spec fn applicable_upto(
    headers: Seq<TupleVariationHeader>,
    gvar: GvarTable,
    instance: Seq<F2Dot14>,
    k: nat,
) -> Result<Seq<(u64, usize)>, ParseError>
    decreases k,
{
    if k == 0 {
        Ok(Seq::empty())
    } else {
        match applicable_upto(headers, gvar, instance, (k - 1) as nat) {
            Err(e) => Err(e),
            Ok(prev) => if headers[k - 1].spec_peak_tuple(&gvar) is None {
                Err(ParseError::BadIndex)
            } else {
                let s = header_scalar(headers[k - 1], gvar, instance);
                if s != 0 {
                    Ok(prev.push((s as u64, (k - 1) as usize)))
                } else {
                    Ok(prev)
                }
            },
        }
    }
}

/// The tuple variations of a store that apply at the instance; a bad index
/// where the peak of one of them cannot be found.
pub open spec fn applicable_tuples(store: TupleVariationStore, gvar: GvarTable, instance: Seq<F2Dot14>) -> Result<
    Seq<(u64, usize)>,
    ParseError,
> {
    applicable_upto(store.headers@, gvar, instance, store.headers@.len())
}

/// Where a tuple of the first `k` has no peak to be found, the result is a
/// bad index, and only there.
pub proof fn lemma_applicable_error(headers: Seq<TupleVariationHeader>, gvar: GvarTable, instance: Seq<F2Dot14>, k: nat)
    requires
        k <= headers.len(),
    ensures
        applicable_upto(headers, gvar, instance, k) is Err <==> exists|j: int|
            0 <= j < k && (#[trigger] headers[j]).spec_peak_tuple(&gvar) is None,
        applicable_upto(headers, gvar, instance, k) is Err ==> applicable_upto(headers, gvar, instance, k)
            == Err::<Seq<(u64, usize)>, ParseError>(ParseError::BadIndex),
    decreases k,
{
    if k > 0 {
        lemma_applicable_error(headers, gvar, instance, (k - 1) as nat);
        if applicable_upto(headers, gvar, instance, k) is Ok {
            assert forall|j: int| 0 <= j < k implies !((#[trigger] headers[j]).spec_peak_tuple(&gvar) is None) by {
                if j < k - 1 {
                } else {
                }
            }
        }
    }
}

/// An axis scalar lies between zero and one.
pub proof fn lemma_axis_scalar_bounds(start: int, end: int, peak: int, v: int)
    ensures
        0 <= axis_scalar(start, end, peak, v) <= SCALAR_ONE,
{
    let one = SCALAR_ONE as int;
    if peak != 0 && start <= v <= end && v != peak {
        if v < peak {
            assert(0 <= (v - start) * one / (peak - start) <= one) by (nonlinear_arith)
                requires start <= v < peak, one > 0;
        } else {
            assert(0 <= (end - v) * one / (end - peak) <= one) by (nonlinear_arith)
                requires peak < v <= end, one > 0;
        }
    }
}

/// Each partial product of axis scalars lies between zero and one.
pub proof fn lemma_scalar_over_bounds(start: Seq<i16>, end: Seq<i16>, peak: Seq<i16>, instance: Seq<i16>, k: nat)
    ensures
        0 <= scalar_over(start, end, peak, instance, k) <= SCALAR_ONE,
    decreases k,
{
    if k > 0 {
        let i = k - 1;
        lemma_scalar_over_bounds(start, end, peak, instance, (k - 1) as nat);
        let prev = scalar_over(start, end, peak, instance, (k - 1) as nat);
        let a = axis_scalar(start[i] as int, end[i] as int, peak[i] as int, coordinate_at(instance, i));
        lemma_axis_scalar_bounds(start[i] as int, end[i] as int, peak[i] as int, coordinate_at(instance, i));
        let one = SCALAR_ONE as int;
        assert(0 <= prev * a / one <= one) by (nonlinear_arith)
            requires 0 <= prev <= one, 0 <= a <= one, one > 0;
    }
}

/// The scalar of a region lies between zero and one, whatever its bounds,
/// its peak and the instance.
pub proof fn lemma_region_scalar_bounds(start: Seq<i16>, end: Seq<i16>, peak: Seq<i16>, instance: Seq<i16>)
    ensures
        0 <= region_scalar(start, end, peak, instance) <= SCALAR_ONE,
{
    lemma_scalar_over_bounds(start, end, peak, instance, region_axes(start, end, peak));
}

/// The scalar of one axis.
pub fn compute_axis_scalar(start: i16, end: i16, peak: i16, v: i16) -> (r: u64)
    ensures
        r == axis_scalar(start as int, end as int, peak as int, v as int),
{
    proof {
        lemma_axis_scalar_bounds(start as int, end as int, peak as int, v as int);
    }
    if peak == 0 {
        SCALAR_ONE
    } else if v < start || v > end {
        0
    } else if v == peak {
        SCALAR_ONE
    } else if v < peak {
        let num: u64 = (v as i32 - start as i32) as u64;
        let den: u64 = (peak as i32 - start as i32) as u64;
        proof {
            assert(num * SCALAR_ONE <= 0x10000 * 0x4000_0000) by (nonlinear_arith)
                requires num <= 0x10000, SCALAR_ONE == 0x4000_0000;
        }
        num * SCALAR_ONE / den
    } else {
        let num: u64 = (end as i32 - v as i32) as u64;
        let den: u64 = (end as i32 - peak as i32) as u64;
        proof {
            assert(num * SCALAR_ONE <= 0x10000 * 0x4000_0000) by (nonlinear_arith)
                requires num <= 0x10000, SCALAR_ONE == 0x4000_0000;
        }
        num * SCALAR_ONE / den
    }
}

/// The scalar of the region `[start, end]` peaking at `peak`, at `instance`:
/// the product of the axis scalars over the axes that the region gives; an
/// axis that the instance does not give is at zero.
pub fn compute_region_scalar(start: &Coordinates, end: &Coordinates, peak: &[F2Dot14], instance: &[F2Dot14]) -> (r: u64)
    ensures
        r == region_scalar(start@, end@, raw_values(peak@), raw_values(instance@)),
        r <= SCALAR_ONE,
{
    let ghost p = raw_values(peak@);
    let ghost inst = raw_values(instance@);
    let ghost n = region_axes(start@, end@, p);
    let mut starts = start.iter();
    let mut ends = end.iter();
    let mut scalar: u64 = SCALAR_ONE;
    let mut i: usize = 0;
    loop
        invariant
            i <= n,
            n == region_axes(start@, end@, p),
            p == raw_values(peak@),
            inst == raw_values(instance@),
            starts.coords == start,
            ends.coords == end,
            starts.index == i,
            ends.index == i,
            scalar == scalar_over(start@, end@, p, inst, i as nat),
        decreases n - i,
    {
        proof {
            lemma_scalar_over_bounds(start@, end@, p, inst, i as nat);
        }
        if i >= peak.len() {
            return scalar;
        }
        let s = starts.next();
        let e = ends.next();
        let (s, e) = match (s, e) {
            (Some(s), Some(e)) => (s, e),
            _ => {
                return scalar;
            },
        };
        // an axis that the instance does not give is at its default
        let v: i16 = if i < instance.len() { instance[i].0 } else { 0 };
        let a = compute_axis_scalar(s.0, e.0, peak[i].0, v);
        proof {
            assert(v == coordinate_at(inst, i as int));
            lemma_axis_scalar_bounds(s.0 as int, e.0 as int, peak@[i as int].0 as int, v as int);
            assert(scalar * a <= 0x4000_0000 * 0x4000_0000) by (nonlinear_arith)
                requires scalar <= 0x4000_0000, a <= 0x4000_0000;
        }
        scalar = scalar * a / SCALAR_ONE;
        i = i + 1;
    }
}

/// The region implied by a peak, on axes where no intermediate region is
/// given.
fn implicit_region(peak: &[F2Dot14]) -> (r: (AxisValues, AxisValues))
    ensures
        axis_values_of(r.0) == implicit_start(raw_values(peak@)),
        axis_values_of(r.1) == implicit_end(raw_values(peak@)),
{
    let ghost p = raw_values(peak@);
    let mut starts = AxisValues::new();
    let mut ends = AxisValues::new();
    let mut i: usize = 0;
    while i < peak.len()
        invariant
            i <= peak@.len(),
            p == raw_values(peak@),
            axis_values_of(starts) == implicit_start(p).take(i as int),
            axis_values_of(ends) == implicit_end(p).take(i as int),
        decreases peak@.len() - i,
    {
        let v = peak[i].0;
        if v < 0 {
            // the region runs from the peak up to zero
            starts.push(v);
            ends.push(0);
        } else if v == 0 {
            // the axis takes no part in the scalar
            starts.push(v);
            ends.push(v);
        } else {
            // the region runs from zero up to the peak
            starts.push(0);
            ends.push(v);
        }
        proof {
            assert(implicit_start(p).take(i + 1) =~= implicit_start(p).take(i as int).push(implicit_start(p)[i as int]));
            assert(implicit_end(p).take(i + 1) =~= implicit_end(p).take(i as int).push(implicit_end(p)[i as int]));
        }
        i = i + 1;
    }
    proof {
        assert(implicit_start(p).take(i as int) =~= implicit_start(p));
        assert(implicit_end(p).take(i as int) =~= implicit_end(p));
    }
    (starts, ends)
}

/// The tuple variations of `variations` that apply at `instance`, in order,
/// each with its nonzero scalar and its position in the store. A bad index
/// where the peak of a tuple refers to a shared tuple that the table does not
/// have.
pub fn determine_applicable(gvar: &GvarTable, instance: &[F2Dot14], variations: &TupleVariationStore) -> (r: Result<
    Vec<(u64, usize)>,
    ParseError,
>)
    ensures
        match r {
            Ok(v) => applicable_tuples(*variations, *gvar, instance@) == Ok::<Seq<(u64, usize)>, ParseError>(v@),
            Err(e) => applicable_tuples(*variations, *gvar, instance@) == Err::<Seq<(u64, usize)>, ParseError>(e),
        },
        r is Err <==> exists|j: int|
            0 <= j < variations.headers@.len() && (#[trigger] variations.headers@[j]).spec_peak_tuple(gvar) is None,
        r is Err ==> r == Err::<Vec<(u64, usize)>, ParseError>(ParseError::BadIndex),
{
    proof {
        lemma_applicable_error(variations.headers@, *gvar, instance@, variations.headers@.len());
    }
    let mut out: Vec<(u64, usize)> = Vec::new();
    let mut h: usize = 0;
    while h < variations.headers.len()
        invariant
            h <= variations.headers@.len(),
            applicable_upto(variations.headers@, *gvar, instance@, h as nat) == Ok::<Seq<(u64, usize)>, ParseError>(out@),
        decreases variations.headers@.len() - h,
    {
        let header = &variations.headers[h];
        let scalar: u64 = match header.peak_tuple(gvar) {
            None => {
                proof {
                    lemma_applicable_error_stands(variations.headers@, *gvar, instance@, (h + 1) as nat, variations.headers@.len());
                }
                return Err(ParseError::BadIndex);
            },
            Some(peak) => match &header.intermediate_region {
                Some((s, e)) => compute_region_scalar(
                    &Coordinates::Tuple(s.as_slice()),
                    &Coordinates::Tuple(e.as_slice()),
                    peak,
                    instance,
                ),
                None => {
                    let (s, e) = implicit_region(peak);
                    compute_region_scalar(&Coordinates::Array(s), &Coordinates::Array(e), peak, instance)
                },
            },
        };
        assert(scalar == header_scalar(variations.headers@[h as int], *gvar, instance@));
        if scalar != 0 {
            out.push((scalar, h));
        }
        h = h + 1;
    }
    Ok(out)
}

/// Once a tuple's peak has not been found, the error stands.
proof fn lemma_applicable_error_stands(headers: Seq<TupleVariationHeader>, gvar: GvarTable, instance: Seq<F2Dot14>, k: nat, m: nat)
    requires
        k <= m,
        applicable_upto(headers, gvar, instance, k) is Err,
    ensures
        applicable_upto(headers, gvar, instance, m) == applicable_upto(headers, gvar, instance, k),
    decreases m - k,
{
    if k < m {
        lemma_applicable_error_stands(headers, gvar, instance, k, (m - 1) as nat);
    }
}

/// A tuple's scalar lies between zero and one.
pub proof fn lemma_header_scalar_bounds(h: TupleVariationHeader, gvar: GvarTable, instance: Seq<F2Dot14>)
    ensures
        0 <= header_scalar(h, gvar, instance) <= SCALAR_ONE,
{
    match h.spec_peak_tuple(&gvar) {
        None => {},
        Some(peak) => {
            let p = raw_values(peak);
            match h.intermediate_region {
                Some((s, e)) => lemma_region_scalar_bounds(raw_values(s@), raw_values(e@), p, raw_values(instance)),
                None => lemma_region_scalar_bounds(implicit_start(p), implicit_end(p), p, raw_values(instance)),
            }
        },
    }
}

/// The applicable tuples among the first `k` are at most `k`, each at a
/// position below `k` and with a scalar above zero and at most one.
pub proof fn lemma_applicable_upto(headers: Seq<TupleVariationHeader>, gvar: GvarTable, instance: Seq<F2Dot14>, k: nat)
    requires
        k <= headers.len(),
        applicable_upto(headers, gvar, instance, k) is Ok,
    ensures
        ({
            let app = applicable_upto(headers, gvar, instance, k)->Ok_0;
            &&& app.len() <= k
            &&& forall|i: int|
                0 <= i < app.len() ==> {
                    let a = #[trigger] app[i];
                    &&& a.1 < k
                    &&& 0 < a.0 <= SCALAR_ONE
                }
        }),
    decreases k,
{
    if k > 0 {
        lemma_applicable_upto(headers, gvar, instance, (k - 1) as nat);
        lemma_header_scalar_bounds(headers[k - 1], gvar, instance);
    }
}

} // verus!
