use glyph_variation::error::ParseError;
use glyph_variation::glyph::{BoundingBox, Point};
use glyph_variation::metrics::{calculate_phantom_points, HheaTable, HmtxTable, LongHorMetric, Os2};

fn hmtx() -> HmtxTable {
    HmtxTable {
        h_metrics: vec![LongHorMetric { advance_width: 600, lsb: 50 }, LongHorMetric { advance_width: 520, lsb: 30 }],
        left_side_bearings: vec![12],
    }
}

fn hhea() -> HheaTable {
    HheaTable { ascender: 900, descender: -250 }
}

fn bbox() -> Option<BoundingBox> {
    Some(BoundingBox { x_min: 40, x_max: 400, y_min: -10, y_max: 700 })
}

#[test]
fn phantom_points_from_horizontal_header() {
    assert_eq!(
        calculate_phantom_points(0, bbox(), &hmtx(), None, None, &hhea()),
        Ok([Point(-10, 0), Point(590, 0), Point(0, 900), Point(0, -250)])
    );
}

#[test]
fn phantom_points_prefer_os2_metrics() {
    let os2 = Os2 { s_typo_ascender: 800, s_typo_descender: -200 };
    assert_eq!(
        calculate_phantom_points(1, bbox(), &hmtx(), None, Some(&os2), &hhea()),
        Ok([Point(10, 0), Point(530, 0), Point(0, 800), Point(0, -200)])
    );
}

#[test]
fn phantom_points_from_vertical_metrics() {
    let vmtx = HmtxTable { h_metrics: vec![LongHorMetric { advance_width: 1000, lsb: 80 }], left_side_bearings: vec![] };
    assert_eq!(
        calculate_phantom_points(0, bbox(), &hmtx(), Some(&vmtx), None, &hhea()),
        Ok([Point(-10, 0), Point(590, 0), Point(0, 780), Point(0, -220)])
    );
}

#[test]
fn glyph_past_the_full_metrics_shares_the_last_advance() {
    assert_eq!(
        calculate_phantom_points(2, None, &hmtx(), None, None, &hhea()),
        Ok([Point(-12, 0), Point(508, 0), Point(0, 900), Point(0, -250)])
    );
}

#[test]
fn glyph_without_metrics_is_a_bad_index() {
    assert_eq!(calculate_phantom_points(3, None, &hmtx(), None, None, &hhea()), Err(ParseError::BadIndex));
    let vmtx = HmtxTable { h_metrics: vec![], left_side_bearings: vec![] };
    assert_eq!(calculate_phantom_points(0, None, &hmtx(), Some(&vmtx), None, &hhea()), Err(ParseError::BadIndex));
}

#[test]
fn phantom_coordinates_saturate() {
    let wide = HmtxTable { h_metrics: vec![LongHorMetric { advance_width: 65535, lsb: 32767 }], left_side_bearings: vec![] };
    let b = Some(BoundingBox { x_min: -32768, x_max: 0, y_min: 0, y_max: 32767 });
    assert_eq!(
        calculate_phantom_points(0, b, &wide, None, None, &hhea()),
        Ok([Point(-32768, 0), Point(32767, 0), Point(0, 900), Point(0, -250)])
    );
}
