//! What a tool needs to know about the world while it handles an event: the
//! color it paints with and where the cursor stands in canvas space.

use vstd::prelude::*;

use crate::canvas::Color;
use crate::editor::TranslatedPoint;

verus! {

/// The drawing context handed to a tool with each event.
#[derive(Debug, Clone, Copy, PartialEq, Eq, Structural)]
pub struct DrawContext {
    pub primary_color: Color,
    pub cursor_position: TranslatedPoint,
}

impl DrawContext {
    /// A fresh context: painting opaque black, cursor not yet seen.
    pub fn new() -> (r: DrawContext)
        ensures
            r.primary_color == (Color { r: 0, g: 0, b: 0, a: 255 }),
            r.cursor_position == TranslatedPoint::OutsideWindow,
    {
        DrawContext {
            primary_color: Color { r: 0, g: 0, b: 0, a: 255 },
            cursor_position: TranslatedPoint::OutsideWindow,
        }
    }
}

impl Default for DrawContext {
    /// The context a session starts with: painting opaque black, cursor not
    /// yet seen.
    fn default() -> (r: DrawContext)
        ensures
            r.primary_color == (Color { r: 0, g: 0, b: 0, a: 255 }),
            r.cursor_position == TranslatedPoint::OutsideWindow,
    {
        DrawContext::new()
    }
}

} // verus!
