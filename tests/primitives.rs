use glyph_variation::apply::{add_composite_glyph_delta, add_delta};
use glyph_variation::coordinates::Coordinates;
use glyph_variation::glyph::{CompositeGlyphArgument, CompositeGlyphComponent, CompositeGlyphFlag};
use glyph_variation::gvar::{GvarTable, PeakTuple, PointNumbers, TupleVariationHeader, TupleVariationStore};
use glyph_variation::numeric::{add_rounded, quotient_toward_zero, scale, Delta, F2Dot14};
use glyph_variation::scalar::{compute_axis_scalar, compute_region_scalar, determine_applicable};

const HALF: u64 = 1 << 29;

#[test]
fn rounding_goes_half_away_from_zero_and_saturates() {
    assert_eq!(add_rounded(0, 32768), 1);
    assert_eq!(add_rounded(0, -32768), -1);
    assert_eq!(add_rounded(0, 32767), 0);
    assert_eq!(add_rounded(10, -65536 * 3 - 40000), 6);
    assert_eq!(add_rounded(32767, 65536), 32767);
    assert_eq!(add_rounded(-32768, -65536), -32768);
    assert_eq!(add_rounded(65535, 0), 32767);
}

#[test]
fn scaling_rounds_toward_zero() {
    assert_eq!(scale(65536, HALF), 32768);
    assert_eq!(scale(-3, HALF), -1);
    assert_eq!(scale(3, HALF), 1);
    assert_eq!(scale(-65536, 1 << 30), -65536);
    assert_eq!(scale(12345, 0), 0);
    assert_eq!(quotient_toward_zero(-7, 2), -3);
    assert_eq!(quotient_toward_zero(7, -2), -3);
    assert_eq!(quotient_toward_zero(-7, -2), 3);
}

#[test]
fn axis_scalar_cases() {
    // peak zero: the axis is ignored
    assert_eq!(compute_axis_scalar(-16384, 16384, 0, 5000), 1 << 30);
    // outside the region
    assert_eq!(compute_axis_scalar(0, 16384, 16384, -1), 0);
    // at the peak
    assert_eq!(compute_axis_scalar(0, 16384, 8192, 8192), 1 << 30);
    // below the peak: (v - start) / (peak - start)
    assert_eq!(compute_axis_scalar(0, 16384, 16384, 4096), 1 << 28);
    // above the peak: (end - v) / (end - peak)
    assert_eq!(compute_axis_scalar(0, 16384, 8192, 12288), HALF);
}

#[test]
fn coordinates_hand_out_their_values() {
    let values = [F2Dot14::from_raw(-3), F2Dot14::from_raw(4)];
    let tuple = Coordinates::Tuple(&values);
    assert_eq!(tuple.len(), 2);
    let mut it = tuple.iter();
    assert_eq!(it.next(), Some(F2Dot14::from_raw(-3)));
    assert_eq!(it.next(), Some(F2Dot14::from_raw(4)));
    assert_eq!(it.next(), None);
}

#[test]
fn region_scalar_multiplies_axes() {
    let start = [F2Dot14::from_raw(0), F2Dot14::from_raw(0)];
    let end = [F2Dot14::from_raw(16384), F2Dot14::from_raw(16384)];
    let peak = [F2Dot14::from_raw(16384), F2Dot14::from_raw(16384)];
    let instance = [F2Dot14::from_raw(8192), F2Dot14::from_raw(4096)];
    let s = compute_region_scalar(&Coordinates::Tuple(&start), &Coordinates::Tuple(&end), &peak, &instance);
    assert_eq!(s, 1 << 27);
}

#[test]
fn implicit_regions_follow_the_sign_of_the_peak() {
    let header = |peak: Vec<i16>, region: Option<(Vec<i16>, Vec<i16>)>| TupleVariationHeader {
        peak: PeakTuple::Embedded(peak.into_iter().map(F2Dot14::from_raw).collect()),
        intermediate_region: region.map(|(s, e)| {
            (s.into_iter().map(F2Dot14::from_raw).collect(), e.into_iter().map(F2Dot14::from_raw).collect())
        }),
        point_numbers: None,
        x_deltas: vec![],
        y_deltas: vec![],
    };
    let store = TupleVariationStore {
        shared_point_numbers: Some(PointNumbers::All),
        headers: vec![
            header(vec![-16384, 0], None),
            header(vec![16384, 0], None),
            header(vec![-8192, 16384], Some((vec![-16384, 0], vec![0, 16384]))),
        ],
    };
    let gvar = GvarTable { shared_tuples: vec![], glyph_variation_data: vec![] };
    let instance = [F2Dot14::from_raw(-8192), F2Dot14::from_raw(8192)];
    let applicable = determine_applicable(&gvar, &instance, &store).unwrap();
    // the negative peak applies at half strength, the positive one not at all;
    // the intermediate region is at its peak on the first axis and half way
    // on the second
    assert_eq!(applicable, vec![(HALF, 0), (HALF, 2)]);
}

#[test]
fn component_arguments_move_and_widen() {
    assert_eq!(add_delta(CompositeGlyphArgument::U8(200), 32768), CompositeGlyphArgument::I16(201));
    assert_eq!(add_delta(CompositeGlyphArgument::I8(-5), -32768), CompositeGlyphArgument::I16(-6));
    assert_eq!(add_delta(CompositeGlyphArgument::U16(40000), 0), CompositeGlyphArgument::I16(32767));

    let mut c = CompositeGlyphComponent {
        flags: CompositeGlyphFlag(0x0002),
        glyph_index: 3,
        argument1: CompositeGlyphArgument::I8(1),
        argument2: CompositeGlyphArgument::U8(2),
        scale: None,
    };
    add_composite_glyph_delta(&mut c, Delta { x: 65536 * 4, y: -65536 * 5 });
    assert_eq!(c.flags, CompositeGlyphFlag(0x0003));
    assert_eq!(c.argument1, CompositeGlyphArgument::I16(5));
    assert_eq!(c.argument2, CompositeGlyphArgument::I16(-3));
}
