//! Character-grid output of a terminal ray tracer.
//!
//! A frame is a grid of cells, one per cast ray. Each cell shows whether its
//! ray met the scene. This crate fixes how many rows a grid has, the glyph of
//! a cell, and the layout of a frame as text.

pub mod frame;
pub mod grid;
