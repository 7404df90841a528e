//! The drawing model: ink, the canvas that owns it, and its history.

pub mod action;
pub mod canvas;
pub mod capture;
pub mod drawing;
pub mod history;
pub mod stroke;
