//! Renders raster images as text for terminals: every pixel becomes one glyph
//! of a symbol ramp, optionally wrapped in ANSI truecolor escapes.
//!
//! A conversion reads a [`PixelImage`] row by row and issues one instruction
//! for each pixel to a [`FragmentWriter`]. Two sinks are at hand: a byte
//! buffer (`Vec<u8>`), which receives the text as UTF-8, and a [`TextImage`],
//! which keeps a compact fragment for each pixel and renders the same text
//! later, as often as wanted.
//!
//! - [`sympols`]: the symbol ramp, and which glyph a pixel selects;
//! - [`color`]: ANSI truecolor values and their escape sequences;
//! - [`config`]: the configuration and the size hint;
//! - [`pixel`], [`impl_image`]: the source of pixels, and images of the
//!   `image` crate as such;
//! - [`writer`]: fragments, instructions and sinks;
//! - [`convert`]: the driver, and the instructions that it issues;
//! - [`stream`], [`text_image`], [`roundtrip`]: what the two sinks hold after
//!   a conversion, and that they agree;
//! - [`args`], [`opts`], [`ascii_processor`]: the rules of the command line
//!   front ends, and the sampling processor.

use vstd::prelude::*;

pub mod args;
pub mod ascii_processor;
pub mod color;
pub mod config;
pub mod convert;
pub mod impl_image;
pub mod opts;
pub mod pixel;
pub mod roundtrip;
pub mod stream;
pub mod sympols;
pub mod text;
pub mod text_image;
pub mod writer;

pub use vstd::view::View;

pub use color::ANSIColor;
pub use config::Config;
pub use convert::convert_image_to_ascii;
pub use pixel::PixelImage;
pub use text_image::{Fragment, IndexdFragment, TextImage, ToTextImage};
pub use writer::{FragmentInfo, FragmentWriter, SinkError};
pub use sympols::{Sympols, EMPTY_CHAR};

verus! {

/// Flag bit: colorize the output.
pub const COLORS: u8 = 1;

/// Flag bit: swap the foreground color with the background.
pub const REVERSE: u8 = 2;

/// Alpha values below this bound count as transparent.
pub const ALPHA_THRESHOLD: u8 = 120;

/// RGBA pixel.
#[derive(Debug, Clone, Copy, PartialEq, Eq, Hash, Structural)]
pub struct Rgba {
    /// Red.
    pub r: u8,
    /// Green.
    pub g: u8,
    /// Blue.
    pub b: u8,
    /// Alpha.
    pub a: u8,
}

impl Rgba {
    /// Builds a pixel from its four channels.
    pub fn new(r: u8, g: u8, b: u8, a: u8) -> (p: Rgba)
        ensures
            p == (Rgba { r, g, b, a }),
    {
        Rgba { r, g, b, a }
    }
}

} // verus!
