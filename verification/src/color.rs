//! Colour values.

use vstd::prelude::*;

verus! {

/// One picture element: four 8-bit channels.
#[derive(Clone, Copy, Debug, PartialEq, Eq, Hash, Structural)]
pub struct Pixel {
    pub red: u8,
    pub green: u8,
    pub blue: u8,
    pub alpha: u8,
}

/// A colour without an alpha channel.
#[derive(Clone, Copy, Debug, PartialEq, Eq, Hash, Structural)]
pub struct Rgb {
    pub red: u8,
    pub green: u8,
    pub blue: u8,
}

impl Pixel {
    /// A pixel is transparent when its alpha channel is zero.
    pub open spec fn is_transparent(self) -> bool {
        self.alpha == 0
    }

    /// The pixel with the channels of `color` and the alpha of `self`.
    pub open spec fn with_rgb(self, color: Rgb) -> Pixel {
        Pixel { red: color.red, green: color.green, blue: color.blue, alpha: self.alpha }
    }

    /// The colour of the pixel, its alpha left out.
    pub open spec fn rgb(self) -> Rgb {
        Rgb { red: self.red, green: self.green, blue: self.blue }
    }

    pub fn new(red: u8, green: u8, blue: u8, alpha: u8) -> (pixel: Pixel)
        ensures
            pixel == (Pixel { red, green, blue, alpha }),
    {
        Pixel { red, green, blue, alpha }
    }

    /// Replaces red, green and blue and keeps alpha.
    pub fn recolored(self, color: Rgb) -> (pixel: Pixel)
        ensures
            pixel == self.with_rgb(color),
    {
        Pixel { red: color.red, green: color.green, blue: color.blue, alpha: self.alpha }
    }
}

impl Rgb {
    pub fn new(red: u8, green: u8, blue: u8) -> (color: Rgb)
        ensures
            color == (Rgb { red, green, blue }),
    {
        Rgb { red, green, blue }
    }
}

} // verus!
