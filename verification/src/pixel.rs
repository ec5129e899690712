//! The source of pixels.

use vstd::prelude::*;

use crate::Rgba;

verus! {

/// An image that can be read pixel by pixel.
pub trait PixelImage {
    /// The width and the height of the image.
    spec fn spec_dimensions(&self) -> (u32, u32);

    /// The pixel in column `x` of row `y`.
    spec fn spec_pixel(&self, x: u32, y: u32) -> Rgba;

    /// The dimensions of the image: its width and its height.
    fn dimensions(&self) -> (d: (u32, u32))
        ensures
            d == self.spec_dimensions(),
    ;

    /// The RGBA value of the pixel in column `x` of row `y`.
    fn get_pixel(&self, x: u32, y: u32) -> (p: Rgba)
        requires
            x < self.spec_dimensions().0,
            y < self.spec_dimensions().1,
        ensures
            p == self.spec_pixel(x, y),
    ;
}

} // verus!
