//! Core of an N-body gravity visualizer: identity and color allocation for
//! the simulated bodies, and the integer rasterization primitives (clipped
//! pixel writes, eight-way symmetric arc plotting, line drawing, rectangle
//! outlines) that render them into a raw pixel buffer.

pub mod gravity;
pub mod helper;
pub mod ui;
