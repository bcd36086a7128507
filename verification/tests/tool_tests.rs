use oxipaint::canvas::Color;
use oxipaint::draw_context::DrawContext;
use oxipaint::editor::{Editor, TranslatedPoint};
use oxipaint::geometry::{Scale, SubpixelPoint};
use oxipaint::input::{
    first_hotkey_match, KeyModifier, KeyWithMod, MouseButton, PressOrRelease, Redraw, SdlError,
};
use oxipaint::overlay::{EventResponse, UiEventKind};
use oxipaint::pencil::Pencil;
use oxipaint::zoom_overlay::ZoomOverlay;

const BLACK: Color = Color { r: 0, g: 0, b: 0, a: 255 };
const WHITE: Color = Color { r: 255, g: 255, b: 255, a: 255 };

fn within(x: i64, y: i64) -> TranslatedPoint {
    // A cursor position at the center of pixel (x, y): value (x.5, y.5).
    TranslatedPoint::WithinCanvas(SubpixelPoint::new(2 * x + 1, 2 * y + 1, 2))
}

#[test]
fn pencil_stroke_draws_a_line_and_records_one_entry() {
    let mut editor = Editor::new(8, 8);
    let mut pencil = Pencil::new();
    let mut context = DrawContext::new();
    assert_eq!(context.primary_color, BLACK);

    context.cursor_position = within(0, 0);
    assert_eq!(
        pencil.on_mouse_button_press(MouseButton::Left, &context, &mut editor),
        Redraw::Dont
    );
    assert!(editor.in_transaction());

    context.cursor_position = within(3, 0);
    assert_eq!(pencil.on_cursor_move(&context, &mut editor), Redraw::Do);

    assert_eq!(
        pencil.on_mouse_button_release(MouseButton::Left, &context, &mut editor),
        Redraw::Dont
    );
    assert!(!editor.in_transaction());

    // Exactly the four pixels under the stroke are black.
    for y in 0u32..8 {
        for x in 0u32..8 {
            let expected = if y == 0 && x <= 3 { BLACK } else { WHITE };
            assert_eq!(editor.canvas().get_at(x, y), expected, "pixel ({}, {})", x, y);
        }
    }
    assert_eq!(editor.history().len(), 1);
    assert_eq!(editor.history().entry(0).len(), 4);
}

#[test]
fn pencil_ignores_other_buttons_and_idle_moves() {
    let mut editor = Editor::new(8, 8);
    let mut pencil = Pencil::new();
    let mut context = DrawContext::new();
    context.cursor_position = within(1, 1);

    assert_eq!(
        pencil.on_mouse_button_press(MouseButton::Right, &context, &mut editor),
        Redraw::Dont
    );
    assert!(!editor.in_transaction());
    assert_eq!(pencil.on_cursor_move(&context, &mut editor), Redraw::Dont);
    assert_eq!(editor.canvas().get_at(1, 1), WHITE);
}

#[test]
fn pencil_skips_the_gap_across_the_window_edge() {
    let mut editor = Editor::new(8, 8);
    let mut pencil = Pencil::new();
    let mut context = DrawContext::new();

    context.cursor_position = within(0, 0);
    pencil.on_mouse_button_press(MouseButton::Left, &context, &mut editor);

    // The cursor leaves the window mid-stroke: nothing is drawn...
    context.cursor_position = TranslatedPoint::OutsideWindow;
    assert_eq!(pencil.on_cursor_move(&context, &mut editor), Redraw::Dont);

    // ...and coming back only re-anchors, still drawing nothing.
    context.cursor_position = within(5, 5);
    assert_eq!(pencil.on_cursor_move(&context, &mut editor), Redraw::Dont);

    pencil.on_mouse_button_release(MouseButton::Left, &context, &mut editor);
    for y in 0u32..8 {
        for x in 0u32..8 {
            assert_eq!(editor.canvas().get_at(x, y), WHITE);
        }
    }
}

#[test]
fn pencil_clips_strokes_leaving_the_canvas() {
    let mut editor = Editor::new(4, 4);
    let mut pencil = Pencil::new();
    let mut context = DrawContext::new();

    context.cursor_position = within(2, 2);
    pencil.on_mouse_button_press(MouseButton::Left, &context, &mut editor);
    // The cursor moves off the canvas but stays in the window.
    context.cursor_position =
        TranslatedPoint::OutsideCanvas(SubpixelPoint::new(2 * 6 + 1, 2 * 2 + 1, 2));
    assert_eq!(pencil.on_cursor_move(&context, &mut editor), Redraw::Do);
    pencil.on_mouse_button_release(MouseButton::Left, &context, &mut editor);

    // The on-canvas part of the row is painted; no panic for the rest.
    assert_eq!(editor.canvas().get_at(2, 2), BLACK);
    assert_eq!(editor.canvas().get_at(3, 2), BLACK);
    assert_eq!(editor.canvas().get_at(1, 2), WHITE);
}

#[test]
fn pencil_name_and_state() {
    let pencil = Pencil::new();
    assert_eq!(pencil.name(), "Pencil");
}

#[test]
fn hotkey_matching_finds_the_first_pattern() {
    let undo_key = KeyModifier::new().ctrl().key(26);
    let redo_key = KeyModifier::new().ctrl().key(25);
    let space_key = KeyWithMod::new(44, KeyModifier::new());
    let bindings = vec![undo_key, redo_key, space_key];

    assert_eq!(first_hotkey_match(&bindings, undo_key), Some(0));
    assert_eq!(first_hotkey_match(&bindings, redo_key), Some(1));
    assert_eq!(first_hotkey_match(&bindings, space_key), Some(2));
    assert_eq!(
        first_hotkey_match(&bindings, KeyModifier::new().shift().key(26)),
        None
    );
    assert_ne!(PressOrRelease::Press, PressOrRelease::Release);
}

#[test]
fn key_modifier_builders_compose() {
    let m = KeyModifier::new().ctrl().alt();
    assert!(m.ctrl && m.alt && !m.shift);
    let k = m.key(9);
    assert_eq!(k, KeyWithMod::new(9, m));
}

#[test]
fn zoom_overlay_closes_on_interaction() {
    let overlay = ZoomOverlay { zoom: Scale::Times(3) };
    assert_eq!(ZoomOverlay::dimensions(), (100, 50));
    assert_eq!(overlay.handle_event(UiEventKind::MouseMotion), EventResponse::Close);
    assert_eq!(overlay.handle_event(UiEventKind::MouseWheel), EventResponse::Close);
    assert_eq!(overlay.handle_event(UiEventKind::MouseButtonDown), EventResponse::Close);
    assert_eq!(overlay.handle_event(UiEventKind::KeyDown), EventResponse::Close);
    assert_eq!(overlay.handle_event(UiEventKind::KeyUp), EventResponse::Retain);
    assert_eq!(overlay.handle_event(UiEventKind::MouseButtonUp), EventResponse::Retain);
    assert_eq!(overlay.handle_event(UiEventKind::Other), EventResponse::Retain);
}

#[test]
fn sdl_error_carries_its_message() {
    let err = SdlError::from(String::from("window creation failed"));
    assert_eq!(err.message(), "window creation failed");
}
