//! An escape-time (Mandelbrot set) renderer with a verified core.
//!
//! All numeric values travel as IEEE-754 binary64 bit patterns; the
//! arithmetic itself is delegated, one operation at a time, to an exact
//! IEEE-754 implementation behind the trusted wrappers of [`binary64`].
//! On top of that base the escape-time estimator ([`escape`]), the color
//! mapper with its dithering ([`color`]), the viewport-to-plane mapping
//! ([`viewport`]), the pixel buffer ([`raster`]) and the grid evaluation
//! and assembly scheme ([`grid`]) are verified.

pub mod binary64;
pub mod color;
pub mod escape;
pub mod grid;
pub mod raster;
pub mod viewport;
