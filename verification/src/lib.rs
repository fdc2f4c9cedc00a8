//! Verified core of an escape-time fractal renderer.
//!
//! The renderer draws the Mandelbrot set and Julia sets over a rectangle of
//! the complex plane. A frame is cut into horizontal bands that are
//! rendered independently. For each band a grid of sample points is walked,
//! every point is iterated until it escapes or the iteration cap is
//! reached, its iteration count is turned into a colour, and the coloured
//! grid is magnified into an RGBA byte buffer.
//!
//! The crate is generic in the numbers that are not integers. Coordinates
//! of the plane have a type `T` and colour channels a type `H`, and the few
//! operations on them (a step of the orbit, the escape test, the share of a
//! band in a range, the scaling and blending of a channel, the conversion to
//! RGB) are handed in as closures. Everything else is here and proved for
//! whatever the caller plugs in:
//!
//! - [`partition`]: the rows and the rectangle of each band;
//! - [`grid`]: the order in which a grid is walked;
//! - [`escape`]: the escape-time iteration;
//! - [`generator`]: the generators and how the host selects one;
//! - [`color`]: the colour strategies;
//! - [`frame`]: the magnification into bytes;
//! - [`render`]: the rendering of one band from end to end.
//!
//! Contracts of functions that take closures speak of the closures through
//! their own contracts: a result is "a result of `f` for `x`" where
//! `f.ensures((x,), result)` holds.

pub mod error;
pub mod partition;
pub mod grid;
pub mod escape;
pub mod generator;
pub mod color;
pub mod frame;
pub mod render;
