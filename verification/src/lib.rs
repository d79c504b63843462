//! Escape-time rendering of the Mandelbrot set over a fixed-point plane.
//!
//! Every coordinate of the complex plane is a signed 64-bit integer counting
//! units of `2^-52`, so that all arithmetic is exact integer arithmetic with a
//! stated rounding rule.
pub mod fixed;
mod complex;
pub mod escape;
pub mod color;
pub mod viewport;
pub mod config;
pub mod render;
pub mod zoom;
pub mod explorer;
