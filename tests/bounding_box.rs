use glyph_variation::bbox::{GlyfTable, Rect};
use glyph_variation::error::ParseError;
use glyph_variation::glyph::{
    BoundingBox, CompositeGlyph, CompositeGlyphArgument, CompositeGlyphComponent, CompositeGlyphFlag,
    CompositeGlyphScale, EmptyGlyph, Glyph, Point, SimpleGlyph, SimpleGlyphFlag,
};
use glyph_variation::numeric::F2Dot14;

const U: i64 = 16384;

fn rect(min_x: i64, min_y: i64, max_x: i64, max_y: i64) -> Rect {
    Rect { min_x: min_x * U, min_y: min_y * U, max_x: max_x * U, max_y: max_y * U }
}

fn child() -> Glyph {
    Glyph::Simple(SimpleGlyph {
        end_pts_of_contours: vec![1],
        coordinates: vec![(SimpleGlyphFlag(1), Point(0, 0)), (SimpleGlyphFlag(1), Point(100, 200))],
        bounding_box: BoundingBox { x_min: 0, x_max: 100, y_min: 0, y_max: 200 },
        phantom_points: None,
    })
}

fn component(glyph_index: u16, flags: u16, x: i16, y: i16, scale: Option<CompositeGlyphScale>) -> CompositeGlyphComponent {
    CompositeGlyphComponent {
        flags: CompositeGlyphFlag(flags),
        glyph_index,
        argument1: CompositeGlyphArgument::I16(x),
        argument2: CompositeGlyphArgument::I16(y),
        scale,
    }
}

fn composite(components: Vec<CompositeGlyphComponent>) -> Glyph {
    Glyph::Composite(CompositeGlyph {
        glyphs: components,
        bounding_box: BoundingBox { x_min: 0, x_max: 0, y_min: 0, y_max: 0 },
        phantom_points: None,
    })
}

fn table_with(g: Glyph) -> GlyfTable {
    GlyfTable { records: vec![child(), g] }
}

#[test]
fn simple_and_empty_glyph_boxes() {
    let table = GlyfTable { records: vec![child()] };
    assert_eq!(child().calculate_bounding_box(&table), Ok(rect(0, 0, 100, 200)));
    let empty = Glyph::Empty(EmptyGlyph { phantom_points: None });
    assert_eq!(empty.calculate_bounding_box(&table), Ok(rect(0, 0, 0, 0)));
}

#[test]
fn component_offset_moves_the_child() {
    let g = composite(vec![component(0, 0x0002, 10, 20, None)]);
    assert_eq!(g.calculate_bounding_box(&table_with(composite(vec![]))), Ok(rect(10, 20, 110, 220)));
}

#[test]
fn unscaled_offset_is_added_after_scaling() {
    let half = Some(CompositeGlyphScale::Scale(F2Dot14::from_raw(8192)));
    let g = composite(vec![component(0, 0x0002, 10, 20, half)]);
    assert_eq!(g.calculate_bounding_box(&table_with(composite(vec![]))), Ok(rect(10, 20, 60, 120)));
}

#[test]
fn scaled_offset_is_scaled_with_the_child() {
    let half = Some(CompositeGlyphScale::Scale(F2Dot14::from_raw(8192)));
    let g = composite(vec![component(0, 0x0802, 10, 20, half)]);
    assert_eq!(g.calculate_bounding_box(&table_with(composite(vec![]))), Ok(rect(5, 10, 55, 110)));
}

#[test]
fn matrix_rotates_the_child() {
    let quarter_turn = Some(CompositeGlyphScale::Matrix {
        xx: F2Dot14::from_raw(0),
        xy: F2Dot14::from_raw(16384),
        yx: F2Dot14::from_raw(-16384),
        yy: F2Dot14::from_raw(0),
    });
    let g = composite(vec![component(0, 0x0002, 0, 0, quarter_turn)]);
    assert_eq!(g.calculate_bounding_box(&table_with(composite(vec![]))), Ok(rect(-200, 0, 0, 100)));
}

#[test]
fn children_are_united_and_nested_composites_followed() {
    let table = GlyfTable {
        records: vec![child(), composite(vec![component(0, 0x0002, -50, 0, None)])],
    };
    let xy = Some(CompositeGlyphScale::XY { x_scale: F2Dot14::from_raw(16384), y_scale: F2Dot14::from_raw(8192) });
    let g = composite(vec![component(0, 0x0002, 300, 0, xy), component(1, 0x0002, 0, -10, None)]);
    assert_eq!(g.calculate_bounding_box(&table), Ok(rect(-50, -10, 400, 190)));
}

#[test]
fn composite_without_components_has_a_zero_box() {
    let g = composite(vec![]);
    assert_eq!(g.calculate_bounding_box(&table_with(composite(vec![]))), Ok(rect(0, 0, 0, 0)));
}

#[test]
fn missing_child_is_a_bad_index() {
    let g = composite(vec![component(7, 0x0002, 0, 0, None)]);
    assert_eq!(g.calculate_bounding_box(&table_with(composite(vec![]))), Err(ParseError::BadIndex));
}

#[test]
fn composites_in_a_cycle_exceed_the_limit() {
    let table = GlyfTable {
        records: vec![
            composite(vec![component(1, 0x0002, 0, 0, None)]),
            composite(vec![component(0, 0x0002, 0, 0, None)]),
        ],
    };
    assert_eq!(table.records[0].calculate_bounding_box(&table), Err(ParseError::LimitExceeded));
}
