use glyph_variation::error::ParseError;
use glyph_variation::glyph::{
    BoundingBox, CompositeGlyph, CompositeGlyphArgument, CompositeGlyphComponent, CompositeGlyphFlag, Glyph, Point,
    SimpleGlyph, SimpleGlyphFlag,
};
use glyph_variation::gvar::{GvarTable, PeakTuple, PointNumbers, TupleVariationHeader, TupleVariationStore};
use glyph_variation::metrics::{HheaTable, HmtxTable, LongHorMetric};
use glyph_variation::numeric::{Delta, F2Dot14};
use glyph_variation::variation::glyph_deltas;

fn units(d: i64) -> f64 {
    d as f64 / 65536.0
}

fn f2dot14(v: f64) -> F2Dot14 {
    F2Dot14::from_raw((v * 16384.0).round() as i16)
}

fn assert_close(actual: f64, expected: f64, tolerance: f64) {
    assert!(
        (actual - expected).abs() <= tolerance,
        "{} is not within {} of {}",
        actual,
        tolerance,
        expected
    );
}

fn header(peak: &[f64], points: Option<PointNumbers>, xs: Vec<i16>, ys: Vec<i16>) -> TupleVariationHeader {
    TupleVariationHeader {
        peak: PeakTuple::Embedded(peak.iter().map(|p| f2dot14(*p)).collect()),
        intermediate_region: None,
        point_numbers: points,
        x_deltas: xs,
        y_deltas: ys,
    }
}

fn point(x: i16, y: i16) -> (SimpleGlyphFlag, Point) {
    (SimpleGlyphFlag(1), Point(x, y))
}

// A weight and width instance of (0.2, 0.7) in normalized coordinates,
// against regions peaking at full weight and at full width.
#[test]
fn apply_skia_variations_simple_glyph() {
    let glyph = Glyph::Simple(SimpleGlyph {
        end_pts_of_contours: vec![3],
        coordinates: vec![point(41, 229), point(198, 229), point(198, 287), point(41, 287)],
        bounding_box: BoundingBox { x_min: 41, x_max: 198, y_min: 229, y_max: 287 },
        phantom_points: None,
    });
    let gvar = GvarTable {
        shared_tuples: vec![],
        glyph_variation_data: vec![Some(TupleVariationStore {
            shared_point_numbers: Some(PointNumbers::All),
            headers: vec![
                header(&[1.0, 0.0], None, vec![3, 2, 2, 3, 0, -1, 0, 0], vec![-2, -2, 0, 0, 0, 0, 0, 0]),
                header(&[0.0, 1.0], None, vec![231, 12, 12, 231, 0, 247, 0, 0], vec![-40, -40, 52, 52, 0, 0, 0, 0]),
            ],
        })],
    };
    let instance = vec![f2dot14(0.2), f2dot14(0.7)];
    let varied = glyph_deltas(&glyph, 0, &instance, &gvar)
        .unwrap()
        .expect("there should be glyph deltas");

    let expected_deltas = &[(162.3, -28.4), (8.8, -28.4), (8.8, 36.4), (162.3, 36.4), (0., 0.), (172.7, 0.)];
    assert_eq!(varied.len(), 8);
    for (expected, actual) in expected_deltas.iter().copied().zip(varied.iter().copied()) {
        assert_close(units(actual.x), expected.0, 0.005);
        assert_close(units(actual.y), expected.1, 0.005);
    }
}

// A composite glyph of two components, both placed by offsets, at the same
// instance; a third region peaks where both axes are at their maximum.
#[test]
fn apply_skia_variations_composite_glyph() {
    let component = |glyph_index: u16, x: i16, y: i16| CompositeGlyphComponent {
        flags: CompositeGlyphFlag(0x0002),
        glyph_index,
        argument1: CompositeGlyphArgument::I16(x),
        argument2: CompositeGlyphArgument::I16(y),
        scale: None,
    };
    let glyph = Glyph::Composite(CompositeGlyph {
        glyphs: vec![component(36, 0, 0), component(104, 0, 0)],
        bounding_box: BoundingBox { x_min: 0, x_max: 600, y_min: 0, y_max: 900 },
        phantom_points: None,
    });
    let zeros = vec![0i16; 6];
    let gvar = GvarTable {
        shared_tuples: vec![],
        glyph_variation_data: vec![Some(TupleVariationStore {
            shared_point_numbers: Some(PointNumbers::All),
            headers: vec![
                header(&[1.0, 0.0], None, vec![0, 69, 58, 145, 0, 0], zeros.clone()),
                header(&[0.0, 1.0], None, vec![0, 53, 38, 351, 0, 0], zeros.clone()),
                header(&[1.0, 1.0], None, vec![0, -8, -30, 0, 0, 0], zeros.clone()),
            ],
        })],
    };
    let instance = vec![f2dot14(0.2), f2dot14(0.7)];
    let varied = glyph_deltas(&glyph, 0, &instance, &gvar)
        .unwrap()
        .expect("there should be glyph deltas");

    let r1_scale = 0.2;
    let r2_scale = 0.7;
    let r3_scale = 0.14;
    let expected_deltas = &[
        (0., 0.),
        ((r1_scale * 69.) + (r2_scale * 53.) + (r3_scale * -8.), 0.),
        ((r1_scale * 58.) + (r2_scale * 38.) + (r3_scale * -30.), 0.),
        ((r1_scale * 145.) + (r2_scale * 351.) + (r3_scale * 0.), 0.),
    ];
    for (expected, actual) in expected_deltas.iter().copied().zip(varied.iter().copied()) {
        assert_close(units(actual.x), expected.0, 0.01);
        assert_close(units(actual.y), expected.1, 0.01);
    }
}

fn two_contour_glyph() -> Glyph {
    Glyph::Simple(SimpleGlyph {
        end_pts_of_contours: vec![3, 6],
        coordinates: vec![
            point(0, 0),
            point(100, 0),
            point(100, 100),
            point(0, 100),
            point(200, 0),
            point(300, 0),
            point(250, 50),
        ],
        bounding_box: BoundingBox { x_min: 0, x_max: 300, y_min: 0, y_max: 100 },
        phantom_points: None,
    })
}

fn one_region_gvar() -> GvarTable {
    GvarTable {
        shared_tuples: vec![],
        glyph_variation_data: vec![Some(TupleVariationStore {
            shared_point_numbers: None,
            headers: vec![header(
                &[1.0],
                Some(PointNumbers::Specific(vec![0, 2, 5, 8])),
                vec![10, 20, -6, 8],
                vec![0, 10, 4, 0],
            )],
        })],
    }
}

fn metrics() -> (HmtxTable, HheaTable) {
    (
        HmtxTable { h_metrics: vec![LongHorMetric { advance_width: 400, lsb: 0 }], left_side_bearings: vec![] },
        HheaTable { ascender: 800, descender: -200 },
    )
}

// A glyph of two contours built by hand stands in for a font's glyph: one
// region at full strength, explicit deltas on some points, the rest inferred.
#[test]
fn apply_variations() {
    let mut glyph = two_contour_glyph();
    let gvar = one_region_gvar();
    let (hmtx, hhea) = metrics();
    let instance = vec![f2dot14(1.0)];

    let varied = glyph_deltas(&glyph, 0, &instance, &gvar)
        .unwrap()
        .expect("there should be glyph deltas");
    let expected_deltas: Vec<(i64, i64)> = vec![
        (10, 0),
        (20, 0),
        (20, 10),
        (10, 10),
        (-6, 4),
        (-6, 4),
        (-6, 4),
        (0, 0),
        (8, 0),
        (0, 0),
        (0, 0),
    ];
    assert_eq!(varied.len(), expected_deltas.len());
    for (expected, actual) in expected_deltas.iter().zip(varied.iter()) {
        assert_eq!(*actual, Delta { x: expected.0 * 65536, y: expected.1 * 65536 });
    }

    assert_eq!(glyph.apply_variations(0, &instance, &gvar, &hmtx, None, None, &hhea), Ok(()));
    match &glyph {
        Glyph::Simple(simple) => {
            let points: Vec<Point> = simple.coordinates.iter().map(|c| c.1).collect();
            assert_eq!(
                points,
                vec![
                    Point(10, 0),
                    Point(120, 0),
                    Point(120, 110),
                    Point(10, 110),
                    Point(194, 4),
                    Point(294, 4),
                    Point(244, 54),
                ]
            );
            assert_eq!(simple.bounding_box, BoundingBox { x_min: 10, x_max: 294, y_min: 0, y_max: 110 });
            assert_eq!(
                simple.phantom_points,
                Some([Point(0, 0), Point(408, 0), Point(0, 800), Point(0, -200)])
            );
        }
        _ => panic!("the glyph should stay simple"),
    }
}

#[test]
fn single_region_at_its_peak_gives_its_explicit_deltas() {
    let glyph = Glyph::Simple(SimpleGlyph {
        end_pts_of_contours: vec![2],
        coordinates: vec![point(0, 0), point(50, 80), point(100, 0)],
        bounding_box: BoundingBox { x_min: 0, x_max: 100, y_min: 0, y_max: 80 },
        phantom_points: None,
    });
    let gvar = GvarTable {
        shared_tuples: vec![vec![F2Dot14::from_raw(0), F2Dot14::from_raw(16384)]],
        glyph_variation_data: vec![Some(TupleVariationStore {
            shared_point_numbers: Some(PointNumbers::All),
            headers: vec![TupleVariationHeader {
                peak: PeakTuple::Shared(0),
                intermediate_region: None,
                point_numbers: None,
                x_deltas: vec![-7, 13, 255, 0, 3, 0, 0],
                y_deltas: vec![1, -300, 0, 0, 0, 9, -9],
            }],
        })],
    };
    let instance = vec![F2Dot14::from_raw(0), F2Dot14::from_raw(16384)];
    let varied = glyph_deltas(&glyph, 0, &instance, &gvar).unwrap().unwrap();
    let xs: Vec<i64> = varied.iter().map(|d| d.x / 65536).collect();
    let ys: Vec<i64> = varied.iter().map(|d| d.y / 65536).collect();
    assert!(varied.iter().all(|d| d.x % 65536 == 0 && d.y % 65536 == 0));
    assert_eq!(xs, vec![-7, 13, 255, 0, 3, 0, 0]);
    assert_eq!(ys, vec![1, -300, 0, 0, 0, 9, -9]);
}

#[test]
fn unknown_glyph_index_is_a_bad_index() {
    let glyph = two_contour_glyph();
    let gvar = one_region_gvar();
    let instance = vec![f2dot14(1.0)];
    assert_eq!(glyph_deltas(&glyph, 1, &instance, &gvar), Err(ParseError::BadIndex));
}
