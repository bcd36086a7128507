use oxipaint::canvas::{Canvas, Color};
use oxipaint::geometry::Point;
use oxipaint::history::DiffDirection;

#[test]
fn set_then_get_round_trip() {
    let mut canvas = Canvas::new(4, 4);
    let c = Color::rgba(10, 20, 30, 40);
    for y in 0u32..4 {
        for x in 0u32..4 {
            canvas.set_at(x, y, c);
            assert_eq!(canvas.get_at(x, y), c);
        }
    }
}

#[test]
fn try_set_then_try_get_round_trip() {
    let mut canvas = Canvas::new(3, 5);
    let c = Color::rgba(1, 2, 3, 4);
    assert_eq!(canvas.try_set_at(2, 4, c), Some(()));
    assert_eq!(canvas.try_get_at(2, 4), Some(c));
}

#[test]
fn out_of_bounds_accessors_return_none() {
    let mut canvas = Canvas::new(4, 4);
    let c = Color::rgba(0, 0, 0, 255);
    assert_eq!(canvas.try_get_at(4, 0), None);
    assert_eq!(canvas.try_get_at(0, 4), None);
    assert_eq!(canvas.try_get_at(u32::MAX, u32::MAX), None);
    assert_eq!(canvas.try_set_at(4, 0, c), None);
    assert_eq!(canvas.try_set_at(0, 4, c), None);
    // The failed writes changed nothing.
    for y in 0u32..4 {
        for x in 0u32..4 {
            assert_eq!(canvas.get_at(x, y), Color::rgba(255, 255, 255, 255));
        }
    }
}

#[test]
fn new_canvas_is_opaque_white() {
    let canvas = Canvas::new(2, 3);
    assert_eq!(canvas.width(), 2);
    assert_eq!(canvas.height(), 3);
    assert_eq!(canvas.area(), 6);
    for y in 0u32..3 {
        for x in 0u32..2 {
            assert_eq!(canvas.get_at(x, y), Color::rgba(255, 255, 255, 255));
        }
    }
    // Bytes are stored blue, green, red, alpha.
    assert_eq!(canvas.data().len(), 24);
    assert!(canvas.data().iter().all(|&b| b == 255));
}

#[test]
fn contains_point_is_half_open() {
    let canvas = Canvas::new(4, 4);
    assert!(canvas.contains_point(Point::new(0i64, 0i64)));
    assert!(canvas.contains_point(Point::new(3i64, 3i64)));
    assert!(!canvas.contains_point(Point::new(4i64, 0i64)));
    assert!(!canvas.contains_point(Point::new(0i64, 4i64)));
    assert!(!canvas.contains_point(Point::new(-1i64, 0i64)));
}

#[test]
fn compare_shadow_data_records_exact_changes() {
    let mut canvas = Canvas::new(4, 4);
    let shadow = canvas.create_shadow_data();
    assert_eq!(shadow, *canvas.data());
    let black = Color::rgba(0, 0, 0, 255);
    let red = Color::rgba(255, 0, 0, 255);
    canvas.set_at(1, 1, black);
    canvas.set_at(3, 2, red);
    let diff = canvas.compare_shadow_data(&shadow);
    assert_eq!(diff.len(), 2);
    let first = diff.delta_at(0);
    let second = diff.delta_at(1);
    // Ascending pixel index order: 1*4+1 = 5, then 2*4+3 = 11.
    assert_eq!(first.index, 5);
    assert_eq!(first.before, Color::rgba(255, 255, 255, 255));
    assert_eq!(first.after, black);
    assert_eq!(second.index, 11);
    assert_eq!(second.before, Color::rgba(255, 255, 255, 255));
    assert_eq!(second.after, red);
}

#[test]
fn diff_is_invertible() {
    let mut canvas = Canvas::new(4, 4);
    let shadow = canvas.create_shadow_data();
    canvas.set_at(0, 0, Color::rgba(9, 9, 9, 9));
    canvas.set_at(2, 3, Color::rgba(7, 6, 5, 4));
    let diff = canvas.compare_shadow_data(&shadow);
    let after_bytes = canvas.data().clone();

    // Reverse returns the buffer to the shadow state, Normal brings it back.
    canvas.apply_diff(&diff, DiffDirection::Reverse);
    assert_eq!(*canvas.data(), shadow);
    canvas.apply_diff(&diff, DiffDirection::Normal);
    assert_eq!(*canvas.data(), after_bytes);

    // Applying the same diff and direction twice changes nothing more.
    canvas.apply_diff(&diff, DiffDirection::Normal);
    assert_eq!(*canvas.data(), after_bytes);
}

#[test]
fn update_shadow_data_copies_current_bytes() {
    let mut canvas = Canvas::new(2, 2);
    let mut shadow = canvas.create_shadow_data();
    canvas.set_at(0, 1, Color::rgba(3, 1, 4, 1));
    assert_ne!(shadow, *canvas.data());
    canvas.update_shadow_data(&mut shadow);
    assert_eq!(shadow, *canvas.data());
}

#[test]
fn build_image_reorders_to_rgba() {
    let mut canvas = Canvas::new(2, 1);
    canvas.set_at(0, 0, Color::rgba(1, 2, 3, 4));
    canvas.set_at(1, 0, Color::rgba(5, 6, 7, 8));
    // Internal layout is blue, green, red, alpha.
    assert_eq!(&canvas.data()[0..4], &[3, 2, 1, 4]);
    // The export is red, green, blue, alpha.
    let image = canvas.build_image();
    assert_eq!(image, vec![1, 2, 3, 4, 5, 6, 7, 8]);
}
