use glyph_variation::glyph::{BoundingBox, Glyph, Point, SimpleGlyph, SimpleGlyphFlag};
use glyph_variation::gvar::{GvarTable, PeakTuple, PointNumbers, TupleVariationHeader, TupleVariationStore};
use glyph_variation::numeric::{Delta, F2Dot14};
use glyph_variation::variation::glyph_deltas;

const ONE: i64 = 65536;

fn simple(ends: Vec<u16>, xs: &[i16]) -> Glyph {
    let coordinates: Vec<(SimpleGlyphFlag, Point)> = xs.iter().map(|x| (SimpleGlyphFlag(1), Point(*x, 0))).collect();
    let x_min = *xs.iter().min().unwrap();
    let x_max = *xs.iter().max().unwrap();
    Glyph::Simple(SimpleGlyph {
        end_pts_of_contours: ends,
        coordinates,
        bounding_box: BoundingBox { x_min, x_max, y_min: 0, y_max: 0 },
        phantom_points: None,
    })
}

/// The deltas of `glyph` for one region at full strength with the given
/// explicit x deltas.
fn deltas_at_peak(glyph: &Glyph, points: Vec<u16>, xs: Vec<i16>) -> Vec<Delta> {
    let ys = vec![0i16; xs.len()];
    let gvar = GvarTable {
        shared_tuples: vec![],
        glyph_variation_data: vec![Some(TupleVariationStore {
            shared_point_numbers: None,
            headers: vec![TupleVariationHeader {
                peak: PeakTuple::Embedded(vec![F2Dot14::from_raw(16384)]),
                intermediate_region: None,
                point_numbers: Some(PointNumbers::Specific(points)),
                x_deltas: xs,
                y_deltas: ys,
            }],
        })],
    };
    glyph_deltas(glyph, 0, &[F2Dot14::from_raw(16384)], &gvar).unwrap().unwrap()
}

#[test]
fn one_explicit_point_moves_the_whole_contour() {
    let glyph = simple(vec![3, 5], &[0, 10, 20, 30, 40, 50]);
    let d = deltas_at_peak(&glyph, vec![2], vec![-9]);
    let xs: Vec<i64> = d.iter().map(|d| d.x).collect();
    assert_eq!(xs, vec![-9 * ONE, -9 * ONE, -9 * ONE, -9 * ONE, 0, 0, 0, 0, 0, 0]);
}

#[test]
fn target_below_both_neighbours_takes_the_lower_ones_delta() {
    let glyph = simple(vec![2], &[10, 5, 20]);
    let d = deltas_at_peak(&glyph, vec![0, 2], vec![3, 7]);
    assert_eq!(d[1].x, 3 * ONE);
}

#[test]
fn target_above_both_neighbours_takes_the_higher_ones_delta() {
    let glyph = simple(vec![2], &[10, 25, 20]);
    let d = deltas_at_peak(&glyph, vec![0, 2], vec![3, 7]);
    assert_eq!(d[1].x, 7 * ONE);
}

#[test]
fn equal_neighbours_with_unequal_deltas_give_zero() {
    let glyph = simple(vec![2], &[10, 10, 10]);
    let d = deltas_at_peak(&glyph, vec![0, 2], vec![3, 5]);
    assert_eq!(d[1].x, 0);
}

#[test]
fn equal_neighbours_with_equal_deltas_give_that_delta() {
    let glyph = simple(vec![2], &[10, 10, 10]);
    let d = deltas_at_peak(&glyph, vec![0, 2], vec![4, 4]);
    assert_eq!(d[1].x, 4 * ONE);
}

#[test]
fn target_between_neighbours_is_interpolated() {
    let glyph = simple(vec![2], &[0, 25, 100]);
    let d = deltas_at_peak(&glyph, vec![0, 2], vec![0, 10]);
    // a quarter of the way from 0 to 10
    assert_eq!(d[1].x, 5 * ONE / 2);
}

#[test]
fn interpolation_rounds_toward_zero() {
    let glyph = simple(vec![2], &[0, 1, 3]);
    let d = deltas_at_peak(&glyph, vec![0, 2], vec![0, -1]);
    // a third of -1, in 16.16
    assert_eq!(d[1].x, -21845);
}

#[test]
fn neighbours_wrap_around_the_contour() {
    // explicit points 1 and 2; point 3 has no later referenced point and takes
    // point 1 as its next neighbour, point 0 takes point 2 as its previous one
    let glyph = simple(vec![3], &[0, 100, 200, 300]);
    let d = deltas_at_peak(&glyph, vec![1, 2], vec![10, 20]);
    // point 0 lies below both neighbours (100 and 200): the lower one's delta
    assert_eq!(d[0].x, 10 * ONE);
    // point 3 lies above both: the higher one's delta
    assert_eq!(d[3].x, 20 * ONE);
}

#[test]
fn all_but_one_point_referenced_still_infers_the_last() {
    let glyph = simple(vec![3], &[0, 10, 20, 30]);
    let d = deltas_at_peak(&glyph, vec![0, 1, 3], vec![2, 4, 8]);
    // point 2 lies between point 1 (10, delta 4) and point 3 (30, delta 8)
    assert_eq!(d[2].x, 6 * ONE);
}

#[test]
fn contours_without_explicit_points_stay_still() {
    let glyph = simple(vec![1, 3], &[0, 10, 20, 30]);
    let d = deltas_at_peak(&glyph, vec![0, 1], vec![5, 6]);
    assert_eq!(d[2].x, 0);
    assert_eq!(d[3].x, 0);
}

#[test]
fn phantom_points_take_no_inferred_delta() {
    let glyph = simple(vec![1], &[0, 10]);
    let d = deltas_at_peak(&glyph, vec![0], vec![5]);
    assert_eq!(d.len(), 6);
    assert_eq!(d[1].x, 5 * ONE);
    assert!(d[2..].iter().all(|p| p.x == 0 && p.y == 0));
}
