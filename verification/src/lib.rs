//! Core engine of a raster image editor: a bounds-checked pixel buffer, a
//! diff-based undo/redo history, an exact viewport scale/scroll transform,
//! and a thick-line scan-conversion rasterizer.
//!
//! Rendering, windowing, font loading and file dialogs are deliberately not
//! here: they are thin glue around this core and live with the application.

pub mod canvas;
pub mod draw_context;
pub mod draw_primitives;
pub mod editor;
pub mod geometry;
pub mod history;
pub mod input;
pub mod overlay;
pub mod pencil;
pub mod zoom_overlay;
