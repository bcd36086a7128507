use oxipaint::canvas::Color;
use oxipaint::editor::{Editor, TimeMachineError, TranslatedPoint};
use oxipaint::geometry::{Point, Scale};

const WHITE: Color = Color { r: 255, g: 255, b: 255, a: 255 };
const BLACK: Color = Color { r: 0, g: 0, b: 0, a: 255 };

#[test]
fn transaction_records_one_sparse_delta() {
    // A 4 by 4 buffer, all white; one transaction painting (1, 1) black.
    let mut editor = Editor::new(4, 4);
    editor.begin();
    assert_eq!(editor.try_set_pixel(1, 1, BLACK), Some(()));
    editor.end();

    assert_eq!(editor.history().len(), 1);
    let diff = editor.history().entry(0);
    assert_eq!(diff.len(), 1);
    let delta = diff.delta_at(0);
    assert_eq!(delta.index, 1 * 4 + 1);
    assert_eq!(delta.before, WHITE);
    assert_eq!(delta.after, BLACK);

    editor.undo().expect("undo the stroke");
    assert_eq!(editor.canvas().get_at(1, 1), WHITE);
    editor.redo().expect("redo the stroke");
    assert_eq!(editor.canvas().get_at(1, 1), BLACK);
}

#[test]
fn undo_all_then_redo_all_round_trip() {
    let mut editor = Editor::new(4, 4);
    let initial = editor.canvas().data().clone();

    let strokes: [(u32, u32, Color); 3] = [
        (0, 0, BLACK),
        (2, 1, Color { r: 10, g: 120, b: 200, a: 255 }),
        (3, 3, Color { r: 1, g: 2, b: 3, a: 4 }),
    ];
    for &(x, y, c) in strokes.iter() {
        editor.begin();
        editor.try_set_pixel(x, y, c);
        editor.end();
    }
    let last = editor.canvas().data().clone();
    assert_ne!(initial, last);

    // Undoing every transaction restores the buffer byte for byte.
    for _ in 0..3 {
        editor.undo().expect("undo");
    }
    assert_eq!(*editor.canvas().data(), initial);
    assert_eq!(editor.undo(), Err(TimeMachineError::AlreadyAtTimeEdge));

    // Redoing every transaction restores the newest state byte for byte.
    for _ in 0..3 {
        editor.redo().expect("redo");
    }
    assert_eq!(*editor.canvas().data(), last);
    assert_eq!(editor.redo(), Err(TimeMachineError::AlreadyAtTimeEdge));
}

#[test]
fn record_after_undo_blocks_redo() {
    let mut editor = Editor::new(4, 4);
    editor.begin();
    editor.try_set_pixel(0, 0, BLACK);
    editor.end();
    editor.begin();
    editor.try_set_pixel(1, 0, BLACK);
    editor.end();
    editor.undo().expect("undo second stroke");

    // A new transaction while the cursor sits before the tail.
    editor.begin();
    editor.try_set_pixel(2, 0, BLACK);
    editor.end();

    assert_eq!(editor.history().len(), 2);
    assert_eq!(editor.redo(), Err(TimeMachineError::AlreadyAtTimeEdge));
}

#[test]
fn undo_and_redo_refused_during_transaction() {
    let mut editor = Editor::new(4, 4);
    editor.begin();
    assert_eq!(editor.undo(), Err(TimeMachineError::TransactionInProgress));
    assert_eq!(editor.redo(), Err(TimeMachineError::TransactionInProgress));
    assert!(editor.in_transaction());
    editor.end();
    assert!(!editor.in_transaction());
}

#[test]
fn empty_transaction_is_a_valid_history_point() {
    let mut editor = Editor::new(4, 4);
    editor.begin();
    editor.end();
    assert_eq!(editor.history().len(), 1);
    assert_eq!(editor.history().entry(0).len(), 0);
    editor.undo().expect("undoing a no-op diff succeeds");
}

#[test]
fn scale_floor_reports_no_change() {
    let mut editor = Editor::new(100, 100);
    assert_eq!(editor.scale(), Scale::Times(1));
    assert_eq!(editor.scale_down(Point::new(0i64, 0i64)), None);
    assert_eq!(editor.scale(), Scale::Times(1));
}

#[test]
fn scale_up_then_down_restores_scale_and_center() {
    let mut editor = Editor::new(100, 100);
    let before = editor.get_left_top_offset(200, 200);

    let anchor = Point::new(30i64, 40i64);
    assert_eq!(editor.scale_up(anchor), Some(Scale::Times(2)));
    assert_eq!(editor.scale(), Scale::Times(2));
    assert_eq!(editor.scale_down(anchor), Some(Scale::Times(1)));
    assert_eq!(editor.scale(), Scale::Times(1));

    // Same scale, same center: the offset numerators agree exactly.
    let after = editor.get_left_top_offset(200, 200);
    assert_eq!(before, after);
}

#[test]
fn anchored_zoom_keeps_the_stationary_point() {
    // 100 by 100 canvas, center (50, 50), scale 1, screen 200 by 200. The
    // canvas point (30, 40) shows at screen pixel (80, 90).
    let mut editor = Editor::new(100, 100);
    let anchor = Point::new(30i64, 40i64);
    editor.scale_up(anchor).expect("zoom in");

    // After the zoom the same screen pixel still maps to exactly (30, 40).
    let mapped = editor.translate_to_image_point(Point::new(80i64, 90i64), 200, 200);
    assert_eq!(mapped.den, 4);
    assert_eq!(mapped.num_x, 30 * 4);
    assert_eq!(mapped.num_y, 40 * 4);
    assert_eq!(mapped.floor(), Point::new(30i64, 40i64));
}

#[test]
fn scroll_translates_and_clamps() {
    let mut editor = Editor::new(10, 10);
    // Center starts at (5, 5): offset numerator-of-halves is screen - 10.
    assert_eq!(editor.get_left_top_offset(100, 100), Point::new(90i64, 90i64));
    editor.scroll(3, 4);
    // Center moved to (8, 9).
    assert_eq!(editor.get_left_top_offset(100, 100), Point::new(84i64, 82i64));
    // Scrolling far out clamps to the canvas edge.
    editor.scroll(1000, 1000);
    assert_eq!(editor.get_left_top_offset(100, 100), Point::new(80i64, 80i64));
    editor.scroll(-1000, -1000);
    assert_eq!(editor.get_left_top_offset(100, 100), Point::new(100i64, 100i64));
}

#[test]
fn scroll_moves_by_canvas_units_at_any_zoom() {
    // At 200% zoom a scroll of (2, 0) moves the center by two full canvas
    // units: the numerator over 2 * scale grows by 2 * scale * 2 = 8.
    let mut editor = Editor::new(100, 100);
    editor.scale_up(Point::new(0i64, 0i64)).expect("zoom to 200%");
    // Anchored at the origin, the center moves to (25, 25): numerator 100
    // over denominator 4.
    assert_eq!(editor.get_left_top_offset(200, 200), Point::new(100i64, 100i64));
    editor.scroll(2, 0);
    // The numerator grows by 2 * scale * 2 = 8: the center sits at x = 27.
    assert_eq!(editor.get_left_top_offset(200, 200), Point::new(92i64, 100i64));
}

#[test]
fn translate_subtracts_the_rounded_offset() {
    // A 5 by 5 canvas: the center numerator is odd (5), so the exact offset
    // (8 - 5) / 2 = 1.5 screen pixels rounds to 2 — and the inverse
    // transform subtracts that rounded offset, as the renderer blits there.
    let editor = Editor::new(5, 5);
    let origin = editor.translate_to_image_point(Point::new(0i64, 0i64), 8, 8);
    assert_eq!((origin.num_x, origin.num_y, origin.den), (-4, -4, 2));
}

#[test]
fn translate_cursor_position_classifies() {
    let editor = Editor::new(4, 4);
    // Screen 8 by 8: the canvas occupies screen pixels 2..6 on each axis.
    match editor.translate_cursor_position(Some(Point::new(3i64, 3i64)), 8, 8) {
        TranslatedPoint::WithinCanvas(p) => {
            assert_eq!((p.num_x, p.num_y, p.den), (3, 3, 2));
        }
        other => panic!("expected WithinCanvas, got {:?}", other),
    }
    match editor.translate_cursor_position(Some(Point::new(7i64, 7i64)), 8, 8) {
        TranslatedPoint::OutsideCanvas(p) => {
            assert_eq!((p.num_x, p.num_y, p.den), (11, 11, 2));
        }
        other => panic!("expected OutsideCanvas, got {:?}", other),
    }
    assert_eq!(
        editor.translate_cursor_position(None, 8, 8),
        TranslatedPoint::OutsideWindow
    );
}

#[test]
fn visible_region_reports_rect_scale_offset() {
    let editor = Editor::new(100, 100);
    let (rect, scale, offset) = editor.visible_region(200, 200);
    assert_eq!(scale, Scale::Times(1));
    // Canvas origin sits at screen (50, 50).
    assert_eq!(offset, Point::new(50i64, 50i64));
    // The sampled canvas rectangle is the visible area plus margin.
    assert_eq!(rect.left(), -51);
    assert_eq!(rect.top(), -51);
    assert_eq!(rect.width(), 202);
    assert_eq!(rect.height(), 202);
    assert_eq!(rect.right(), 151);
    assert_eq!(rect.bottom(), 151);
}
