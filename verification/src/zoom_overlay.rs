//! The small overlay that flashes the current zoom percentage after a zoom
//! step and disappears at the next interaction.

use vstd::prelude::*;

use crate::geometry::Scale;
use crate::overlay::{EventResponse, UiEventKind};

verus! {

/// The zoom-percentage overlay.
#[derive(Debug, Clone, Copy, PartialEq, Eq, Structural)]
pub struct ZoomOverlay {
    pub zoom: Scale,
}

impl ZoomOverlay {
    /// The overlay's inner box, in screen pixels.
    pub fn dimensions() -> (r: (u32, u32))
        ensures
            r == (100u32, 50u32),
    {
        (100, 50)
    }

    /// The overlay closes at the next interaction — any mouse movement,
    /// wheel turn, button press or key press — and stays open through
    /// everything else.
    pub fn handle_event(&self, event: UiEventKind) -> (r: EventResponse)
        ensures
            r == (match event {
                UiEventKind::MouseMotion => EventResponse::Close,
                UiEventKind::MouseWheel => EventResponse::Close,
                UiEventKind::MouseButtonDown => EventResponse::Close,
                UiEventKind::KeyDown => EventResponse::Close,
                _ => EventResponse::Retain,
            }),
    {
        match event {
            UiEventKind::MouseMotion => EventResponse::Close,
            UiEventKind::MouseWheel => EventResponse::Close,
            UiEventKind::MouseButtonDown => EventResponse::Close,
            UiEventKind::KeyDown => EventResponse::Close,
            _ => EventResponse::Retain,
        }
    }
}

} // verus!
