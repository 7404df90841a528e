//! The tool bar: which tool is in hand, and what its controls do.

pub mod main;
