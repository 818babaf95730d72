use smart_road::scanline::fill_spans;

#[test]
fn square_fills_every_row_but_the_last() {
    let spans = fill_spans(&vec![(0, 0), (10, 0), (10, 10), (0, 10)]);
    let expected: Vec<(i32, i32, u32)> = (0..10).map(|y| (y, 0, 10)).collect();
    assert_eq!(spans, expected);
}

#[test]
fn triangle_rows_grow() {
    let spans = fill_spans(&vec![(0, 0), (10, 10), (0, 10)]);
    let expected: Vec<(i32, i32, u32)> = (1..10).map(|y| (y, 0, y as u32)).collect();
    assert_eq!(spans, expected);
}

#[test]
fn crossings_round_towards_zero() {
    // The slanted edge crosses row 1 at 10 - 10/3 and row 2 at 10 - 20/3,
    // both rounded towards zero.
    let spans = fill_spans(&vec![(10, 0), (0, 3), (0, 0)]);
    assert_eq!(spans, vec![(0, 0, 10), (1, 0, 7), (2, 0, 4)]);
}

#[test]
fn degenerate_polygons_fill_nothing() {
    assert_eq!(fill_spans(&vec![]), vec![]);
    assert_eq!(fill_spans(&vec![(0, 0), (5, 5)]), vec![]);
    assert_eq!(fill_spans(&vec![(0, 0), (5, 0), (9, 0)]), vec![]);
}

#[test]
fn rotated_square_is_symmetric() {
    let spans = fill_spans(&vec![(5, 0), (10, 5), (5, 10), (0, 5)]);
    assert_eq!(spans.len(), 9);
    for (y, x, w) in spans {
        let half = if y <= 5 { y } else { 10 - y };
        assert_eq!(x, 5 - half);
        assert_eq!(w as i32, 2 * half);
    }
}

#[test]
fn wide_polygon_far_from_the_origin() {
    let spans = fill_spans(&vec![(-2_000_000_000, 0), (2_000_000_000, 0), (2_000_000_000, 2)]);
    assert_eq!(spans, vec![(0, -2_000_000_000, 4_000_000_000), (1, 0, 2_000_000_000)]);
}

#[test]
fn rows_at_the_edge_of_the_coordinate_range() {
    let top = i32::MAX;
    let spans = fill_spans(&vec![(0, top - 2), (4, top - 2), (0, top)]);
    assert_eq!(spans, vec![(top - 2, 0, 4), (top - 1, 0, 2)]);
}

#[test]
fn no_span_on_the_top_row() {
    let polys: Vec<Vec<(i32, i32)>> = vec![
        vec![(0, 0), (10, 0), (10, 10), (0, 10)],
        vec![(5, 0), (10, 5), (5, 10), (0, 5)],
        vec![(3, -7), (12, 4), (-6, 9), (-2, 1)],
    ];
    for pts in polys {
        let lo = pts.iter().map(|p| p.1).min().unwrap();
        let hi = pts.iter().map(|p| p.1).max().unwrap();
        let spans = fill_spans(&pts);
        assert!(!spans.is_empty());
        for (y, _x, w) in spans {
            assert!(lo <= y && y < hi);
            assert!(w > 0);
        }
    }
}

#[test]
fn spans_stay_within_the_columns() {
    let polys: Vec<Vec<(i32, i32)>> = vec![
        vec![(3, -7), (12, 4), (-6, 9), (-2, 1)],
        vec![(0, 0), (20, 3), (4, 6), (18, 12), (-5, 8)],
        vec![(-2_000_000_000, 0), (2_000_000_000, 0), (2_000_000_000, 2)],
    ];
    for pts in polys {
        let left = pts.iter().map(|p| p.0 as i64).min().unwrap();
        let right = pts.iter().map(|p| p.0 as i64).max().unwrap();
        for (_y, x, w) in fill_spans(&pts) {
            assert!(left <= x as i64);
            assert!(x as i64 + w as i64 <= right);
        }
    }
}
