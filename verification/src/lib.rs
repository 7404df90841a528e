//! The mutation core of a freehand drawing surface: strokes made of
//! segments on an integer grid, exact eraser hit-testing, the zoom
//! viewport, and a linear undo/redo log over every change to the ink.

pub mod app;
pub mod draw;
pub mod geometry;
pub mod modals;
pub mod toolbar;
pub mod utils;

pub use app::SimplePaintApp;
