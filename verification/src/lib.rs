//! Colour ASCII art from bitmaps.
//!
//! A bitmap is turned into a grid of glyphs, one per pixel, by quantising
//! each pixel's luminance onto a ramp of characters of increasing or
//! decreasing visual density; the pixel colours are carried along unchanged
//! so that a terminal can paint each glyph in the colour of its pixel.
//!
//! The quantiser's arithmetic is exact: luminance, gamma correction and
//! rounding are evaluated over the rationals with arbitrary-precision
//! naturals, so the glyph chosen for a pixel is a mathematical function of
//! its channels. Scaling a picture to the terminal is the one step done in
//! floating point, by the `image` crate.

pub mod bitmap;
pub mod color;
pub mod frame;
pub mod layout;
pub mod naming;
pub mod natural;
pub mod present;
pub mod quantize;
pub mod ramp;
pub mod render;
pub mod resize;
pub mod text;
pub mod video;
