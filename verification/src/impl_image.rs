//! Images of the `image` crate as sources of pixels.
//!
//! The `image` crate hands out every pixel as RGBA with 8 bits to the
//! channel. For samples that are integers this cannot fail; for floating
//! point samples it fails on a sample that is no number. So only images with
//! integer samples are sources of pixels: an [`IntegerImage`] is a decoded
//! image that has been found to be one.

use vstd::prelude::*;
use vstd::std_specs::convert::FromSpecImpl;

use crate::color::{spec_rgb_body, ANSIColor};
use crate::pixel::PixelImage;
use crate::Rgba;

verus! {

/// A decoded image of the `image` crate, carried through as it is.
#[verifier::external_type_specification]
#[verifier::external_body]
pub struct ExDynamicImage(image::DynamicImage);

/// The width and the height of a decoded image.
pub uninterp spec fn spec_image_dimensions(img: image::DynamicImage) -> (u32, u32);

/// The pixels of a decoded image by column and row, each as the RGBA value
/// with 8 bits to the channel that the `image` crate converts it to.
pub uninterp spec fn spec_image_pixels(img: image::DynamicImage) -> Map<(u32, u32), Rgba>;

/// The dimensions of a decoded image.
///
/// Wraps `GenericImageView::dimensions` of `image::DynamicImage`, which
/// returns the width and the height of the buffer that the image holds.
#[verifier::external_body]
fn image_dimensions(img: &image::DynamicImage) -> (d: (u32, u32))
    ensures
        d == spec_image_dimensions(*img),
{
    image::GenericImageView::dimensions(img)
}

/// Whether the samples of a decoded image are integers (of 8 or of 16 bits),
/// not floating point numbers.
pub uninterp spec fn spec_integer_samples(img: image::DynamicImage) -> bool;

/// Whether the samples of a decoded image are integers.
///
/// Wraps `DynamicImage::color`, which tells the kind of the samples; the two
/// kinds of 32 bit floating point samples are told apart from the others.
#[verifier::external_body]
fn has_integer_samples(img: &image::DynamicImage) -> (b: bool)
    ensures
        b == spec_integer_samples(*img),
{
    match img.color() {
        image::ColorType::Rgb32F => false,
        image::ColorType::Rgba32F => false,
        _ => true,
    }
}

/// The pixel in column `x` of row `y` of a decoded image.
///
/// Wraps `GenericImageView::get_pixel` of `image::DynamicImage`, which reads
/// the pixel at `(x, y)` and converts it to RGBA with 8 bits to the channel.
/// It panics for coordinates outside the image, and for a floating point
/// sample that is no number; the `requires` leaves out both, the second by
/// leaving out every image with floating point samples. The four channels
/// are handed on as they come.
#[verifier::external_body]
fn image_pixel(img: &image::DynamicImage, x: u32, y: u32) -> (p: Rgba)
    requires
        spec_integer_samples(*img),
        x < spec_image_dimensions(*img).0,
        y < spec_image_dimensions(*img).1,
    ensures
        p == spec_image_pixels(*img)[(x, y)],
{
    let channels = image::GenericImageView::get_pixel(img, x, y).0;
    Rgba { r: channels[0], g: channels[1], b: channels[2], a: channels[3] }
}

/// A decoded image with integer samples. Its view is the image.
#[derive(Debug, PartialEq)]
pub struct IntegerImage {
    image: image::DynamicImage,
}

impl View for IntegerImage {
    type V = image::DynamicImage;

    closed spec fn view(&self) -> image::DynamicImage {
        self.image
    }
}

impl IntegerImage {
    /// The samples of the image are integers.
    #[verifier::type_invariant]
    spec fn integer(self) -> bool {
        spec_integer_samples(self.image)
    }

    /// The image as a source of pixels, if its samples are integers.
    pub fn new(image: image::DynamicImage) -> (r: Option<IntegerImage>)
        ensures
            r is Some <==> spec_integer_samples(image),
            r matches Some(source) ==> source@ == image,
    {
        if has_integer_samples(&image) {
            Some(IntegerImage { image })
        } else {
            None
        }
    }

    /// The image.
    pub fn image(&self) -> (image: &image::DynamicImage)
        ensures
            *image == self@,
            spec_integer_samples(*image),
    {
        proof {
            use_type_invariant(self);
        }
        &self.image
    }

    /// Hands the image out.
    pub fn into_image(self) -> (image: image::DynamicImage)
        ensures
            image == self@,
            spec_integer_samples(image),
    {
        proof {
            use_type_invariant(&self);
        }
        self.image
    }
}

impl PixelImage for IntegerImage {
    open spec fn spec_dimensions(&self) -> (u32, u32) {
        spec_image_dimensions(self@)
    }

    open spec fn spec_pixel(&self, x: u32, y: u32) -> Rgba {
        spec_image_pixels(self@)[(x, y)]
    }

    fn dimensions(&self) -> (d: (u32, u32)) {
        image_dimensions(&self.image)
    }

    fn get_pixel(&self, x: u32, y: u32) -> (p: Rgba) {
        proof {
            use_type_invariant(self);
        }
        image_pixel(&self.image, x, y)
    }
}

/// An RGB color of the `image` crate, carried through as it is.
#[verifier::external_type_specification]
#[verifier::external_body]
#[verifier::reject_recursive_types(T)]
pub struct ExRgb<T>(image::Rgb<T>);

/// The three channels that an RGB color holds: red, green, blue.
pub uninterp spec fn spec_rgb_channels(color: image::Rgb<u8>) -> Seq<u8>;

/// The channel `i` of an RGB color.
///
/// Wraps `Index<usize>` of `image::Rgb`, which hands out the channel at
/// that index of the three; it panics for an index of 3 or more, which the
/// `requires` leaves out.
#[verifier::external_body]
fn rgb_channel(color: &image::Rgb<u8>, i: usize) -> (channel: u8)
    requires
        i < 3,
    ensures
        channel == spec_rgb_channels(*color)[i as int],
{
    color[i]
}

impl From<image::Rgb<u8>> for ANSIColor {
    /// The color of the three channels.
    fn from(value: image::Rgb<u8>) -> (c: ANSIColor)
        ensures
            c@ == spec_rgb_body(
                spec_rgb_channels(value)[0],
                spec_rgb_channels(value)[1],
                spec_rgb_channels(value)[2],
            ),
    {
        ANSIColor::new(rgb_channel(&value, 0), rgb_channel(&value, 1), rgb_channel(&value, 2))
    }
}

impl FromSpecImpl<image::Rgb<u8>> for ANSIColor {
    open spec fn obeys_from_spec() -> bool {
        false
    }

    open spec fn from_spec(value: image::Rgb<u8>) -> ANSIColor {
        arbitrary()
    }
}

} // verus!
