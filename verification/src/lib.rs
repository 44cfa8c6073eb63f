//! Core of an interactive escape-time fractal explorer.
//!
//! The library renders the Mandelbrot and Julia families into a colour
//! buffer, packs that buffer into half-block terminal cells, and produces
//! high-resolution pixel buffers for still-image export.  Plane coordinates
//! are carried as two's-complement fixed-point numbers (a plane unit is
//! `2^32` raw units), so every arithmetic step has an exact integer meaning
//! that the contracts state directly.

pub mod color;
pub mod export;
pub mod fixed;
pub mod iterate;
pub mod packer;
pub mod palettes;
pub mod viewport;
pub mod widget;
