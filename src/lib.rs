//! A fixed-size monochrome pixel canvas: a bounded grid of byte cells, the
//! per-frame input and display steps of a drawing session, and the JSON
//! document form of the grid.

pub mod canvas;
pub mod document;
pub mod session;
