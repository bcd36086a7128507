use oxipaint::draw_primitives::{HardLine, Intersection};
use oxipaint::geometry::Point;

#[test]
fn horizontal_unit_line_covers_exactly_four_pixels() {
    // A line from (0, 0) to (3, 0) with thickness 1 covers exactly the four
    // pixels it runs through, and nothing on the neighboring rows.
    let line = HardLine::new(Point::new(0i64, 0i64), Point::new(3i64, 0i64), 1);
    let pts = line.draw();
    let expected = vec![
        Point::new(0u32, 0u32),
        Point::new(1u32, 0u32),
        Point::new(2u32, 0u32),
        Point::new(3u32, 0u32),
    ];
    assert_eq!(pts, expected);
}

#[test]
fn draw_is_symmetric_in_its_endpoints() {
    let a = Point::new(1i64, 2i64);
    let b = Point::new(7i64, 5i64);
    let forward = HardLine::new(a, b, 3).draw();
    let backward = HardLine::new(b, a, 3).draw();
    assert!(!forward.is_empty());
    assert_eq!(forward, backward);
}

#[test]
fn diagonal_line_is_symmetric_too() {
    let a = Point::new(0i64, 0i64);
    let b = Point::new(5i64, 9i64);
    let forward = HardLine::new(a, b, 1).draw();
    let backward = HardLine::new(b, a, 1).draw();
    assert_eq!(forward, backward);
}

#[test]
fn zero_length_line_covers_its_single_pixel() {
    // The degenerate segment has no normal; the documented policy is a
    // single pixel, whatever the thickness.
    let p = Point::new(5i64, 5i64);
    let pts = HardLine::new(p, p, 9).draw();
    assert_eq!(pts, vec![Point::new(5u32, 5u32)]);
}

#[test]
fn negative_coordinates_are_skipped() {
    let line = HardLine::new(Point::new(-3i64, 0i64), Point::new(1i64, 0i64), 1);
    let pts = line.draw();
    assert_eq!(pts, vec![Point::new(0u32, 0u32), Point::new(1u32, 0u32)]);
}

#[test]
fn thicker_lines_cover_more() {
    let a = Point::new(2i64, 2i64);
    let b = Point::new(8i64, 2i64);
    let thin = HardLine::new(a, b, 1).draw();
    let thick = HardLine::new(a, b, 3).draw();
    assert!(thin.len() < thick.len());
    // Every pixel of the thin line is covered by the thick one.
    for p in thin.iter() {
        assert!(thick.contains(p));
    }
    // Thickness 3 reaches one row above and below.
    assert!(thick.contains(&Point::new(5u32, 1u32)));
    assert!(thick.contains(&Point::new(5u32, 3u32)));
    assert!(!thin.contains(&Point::new(5u32, 1u32)));
}

#[test]
fn pixels_come_out_in_row_major_order_without_duplicates() {
    let pts = HardLine::new(Point::new(0i64, 0i64), Point::new(6i64, 3i64), 2).draw();
    for pair in pts.windows(2) {
        let earlier = pair[0];
        let later = pair[1];
        assert!(earlier.y < later.y || (earlier.y == later.y && earlier.x < later.x));
    }
}

#[test]
fn intersection_variants_are_distinct() {
    assert_eq!(Intersection::Contained, Intersection::Contained);
    assert_ne!(Intersection::Contained, Intersection::Overlaps);
    assert_ne!(Intersection::Overlaps, Intersection::Disjoint);
}
