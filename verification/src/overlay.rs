//! Overlays: transient widgets drawn over the canvas. The core decides only
//! whether an overlay stays open for a given event; drawing it is the
//! renderer's business.

use vstd::prelude::*;

verus! {

/// What an overlay answers when an event reaches it.
#[derive(Debug, Clone, Copy, PartialEq, Eq, Structural)]
pub enum EventResponse {
    Close,
    Retain,
}

/// The kind of user-interface event an overlay is asked about.
#[derive(Debug, Clone, Copy, PartialEq, Eq, Structural)]
pub enum UiEventKind {
    MouseMotion,
    MouseWheel,
    MouseButtonDown,
    MouseButtonUp,
    KeyDown,
    KeyUp,
    Window,
    Other,
}

} // verus!
