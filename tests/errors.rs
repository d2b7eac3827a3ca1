use glyph_variation::error::ParseError;
use glyph_variation::glyph::{EmptyGlyph, Glyph};
use glyph_variation::gvar::{GvarTable, PeakTuple, PointNumbers, TupleVariationHeader, TupleVariationStore};
use glyph_variation::metrics::{HheaTable, HmtxTable, LongHorMetric};
use glyph_variation::numeric::F2Dot14;
use glyph_variation::scalar::determine_applicable;
use glyph_variation::variation::glyph_deltas;

fn header(points: Option<PointNumbers>, xs: Vec<i16>, ys: Vec<i16>) -> TupleVariationHeader {
    TupleVariationHeader {
        peak: PeakTuple::Embedded(vec![F2Dot14::from_raw(16384)]),
        intermediate_region: None,
        point_numbers: points,
        x_deltas: xs,
        y_deltas: ys,
    }
}

fn run(shared: Option<PointNumbers>, h: TupleVariationHeader) -> Result<Option<Vec<glyph_variation::numeric::Delta>>, ParseError> {
    let gvar = GvarTable {
        shared_tuples: vec![],
        glyph_variation_data: vec![Some(TupleVariationStore { shared_point_numbers: shared, headers: vec![h] })],
    };
    let glyph = Glyph::Empty(EmptyGlyph { phantom_points: None });
    glyph_deltas(&glyph, 0, &[F2Dot14::from_raw(16384)], &gvar)
}

#[test]
fn tuple_without_point_numbers_is_malformed() {
    assert_eq!(run(None, header(None, vec![1; 4], vec![1; 4])), Err(ParseError::MalformedTuple));
}

#[test]
fn deltas_short_of_the_point_count_are_malformed() {
    assert_eq!(run(Some(PointNumbers::All), header(None, vec![1; 3], vec![1; 4])), Err(ParseError::MalformedTuple));
    let listed = Some(PointNumbers::Specific(vec![0, 1]));
    assert_eq!(run(None, header(listed, vec![1, 2], vec![1])), Err(ParseError::MalformedTuple));
}

#[test]
fn point_numbers_out_of_order_are_malformed() {
    let listed = Some(PointNumbers::Specific(vec![2, 1]));
    assert_eq!(run(None, header(listed, vec![1, 2], vec![1, 2])), Err(ParseError::MalformedTuple));
    let repeated = Some(PointNumbers::Specific(vec![1, 1]));
    assert_eq!(run(None, header(repeated, vec![1, 2], vec![1, 2])), Err(ParseError::MalformedTuple));
}

#[test]
fn point_number_past_the_glyph_is_a_bad_index() {
    let listed = Some(PointNumbers::Specific(vec![1, 4]));
    assert_eq!(run(None, header(listed, vec![1, 2], vec![1, 2])), Err(ParseError::BadIndex));
}

#[test]
fn shared_point_numbers_serve_tuples_without_their_own() {
    let shared = Some(PointNumbers::Specific(vec![1, 3]));
    let d = run(shared, header(None, vec![5, 6], vec![7, 8])).unwrap().unwrap();
    assert_eq!(d.iter().map(|d| d.x / 65536).collect::<Vec<i64>>(), vec![0, 5, 0, 6]);
    assert_eq!(d.iter().map(|d| d.y / 65536).collect::<Vec<i64>>(), vec![0, 7, 0, 8]);
}

#[test]
fn tuple_with_a_missing_shared_peak_is_a_bad_index() {
    let mut h = header(Some(PointNumbers::All), vec![1; 4], vec![1; 4]);
    h.peak = PeakTuple::Shared(3);
    assert_eq!(run(None, h), Err(ParseError::BadIndex));
}

#[test]
fn missing_shared_peak_is_found_before_any_tuple_is_unpacked() {
    let gvar = GvarTable {
        shared_tuples: vec![vec![F2Dot14::from_raw(16384)]],
        glyph_variation_data: vec![Some(TupleVariationStore {
            shared_point_numbers: None,
            headers: vec![
                // applies and is malformed
                header(Some(PointNumbers::All), vec![1; 3], vec![1; 4]),
                TupleVariationHeader {
                    peak: PeakTuple::Shared(1),
                    intermediate_region: None,
                    point_numbers: Some(PointNumbers::All),
                    x_deltas: vec![1; 4],
                    y_deltas: vec![1; 4],
                },
            ],
        })],
    };
    let store = gvar.glyph_variation_data[0].as_ref().unwrap();
    assert_eq!(determine_applicable(&gvar, &[F2Dot14::from_raw(16384)], store), Err(ParseError::BadIndex));
    let mut glyph = Glyph::Empty(EmptyGlyph { phantom_points: None });
    let hmtx = HmtxTable { h_metrics: vec![LongHorMetric { advance_width: 500, lsb: 0 }], left_side_bearings: vec![] };
    let hhea = HheaTable { ascender: 800, descender: -200 };
    assert_eq!(
        glyph.apply_variations(0, &[F2Dot14::from_raw(16384)], &gvar, &hmtx, None, None, &hhea),
        Err(ParseError::BadIndex)
    );
    match glyph {
        Glyph::Empty(e) => assert_eq!(e.phantom_points, None),
        _ => panic!("the glyph should stay empty"),
    }
}
