use vstd::prelude::*;

verus! {

/// An opaque 24-bit RGB colour.
#[derive(Copy, Clone, Debug, PartialEq, Eq)]
pub struct Color {
    r: u8,
    g: u8,
    b: u8,
}

impl Color {
    /// The red, green and blue channels, in that order.
    pub closed spec fn channels(&self) -> (u8, u8, u8) {
        (self.r, self.g, self.b)
    }

    /// Builds the colour with the given channels.
    pub fn new(r: u8, g: u8, b: u8) -> (color: Self)
        ensures
            color.channels() == (r, g, b),
    {
        Color { r, g, b }
    }

    /// Returns the channels as a `(red, green, blue)` triple.
    pub fn return_rgb(&self) -> (rgb: (u8, u8, u8))
        ensures
            rgb == self.channels(),
    {
        (self.r, self.g, self.b)
    }
}

} // verus!
