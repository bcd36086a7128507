use oxipaint::geometry::{floor_div, Point, Rectangle, Scale, SubpixelPoint};

#[test]
fn scale_applies_by_multiplication() {
    assert_eq!(Scale::Times(1).apply(7), 7);
    assert_eq!(Scale::Times(3).apply(5), 15);
    assert_eq!(Scale::Times(3).times(), 3);
}

#[test]
fn scale_unapplies_by_division() {
    assert_eq!(Scale::Times(3).unapply(15), 5);
    assert_eq!(Scale::Times(3).unapply(16), 5);
    assert_eq!(Scale::Times(3).unapply(2), 0);
    assert_eq!(Scale::Times(1).unapply(9), 9);
}

#[test]
fn scale_formats_as_percentage() {
    assert_eq!(Scale::Times(1).to_percentage_string(), "100%");
    assert_eq!(Scale::Times(3).to_percentage_string(), "300%");
    assert_eq!(Scale::Times(10).to_percentage_string(), "1000%");
    assert_eq!(Scale::Times(12).to_percentage_string(), "1200%");
    assert_eq!(Scale::Times(105).to_percentage_string(), "10500%");
}

#[test]
fn rectangle_accessors() {
    let r = Rectangle::new(1i64, 2i64, 3i64, 4i64);
    assert_eq!(r.left(), 1);
    assert_eq!(r.top(), 2);
    assert_eq!(r.width(), 3);
    assert_eq!(r.height(), 4);
    assert_eq!(r.right(), 4);
    assert_eq!(r.bottom(), 6);
}

#[test]
fn point_construction() {
    let p = Point::new(3i64, -4i64);
    assert_eq!(p.x, 3);
    assert_eq!(p.y, -4);
}

#[test]
fn floor_div_rounds_toward_negative_infinity() {
    assert_eq!(floor_div(7, 2), 3);
    assert_eq!(floor_div(-7, 2), -4);
    assert_eq!(floor_div(-8, 2), -4);
    assert_eq!(floor_div(0, 5), 0);
    assert_eq!(floor_div(-1, 5), -1);
}

#[test]
fn subpixel_floor_picks_the_containing_pixel() {
    assert_eq!(
        SubpixelPoint::new(7, 1, 2).floor(),
        Point::new(3i64, 0i64)
    );
    assert_eq!(
        SubpixelPoint::new(-3, -4, 2).floor(),
        Point::new(-2i64, -2i64)
    );
    assert_eq!(
        SubpixelPoint::new(11, 10, 4).floor(),
        Point::new(2i64, 2i64)
    );
}
