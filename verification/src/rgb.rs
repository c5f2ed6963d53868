//! RGB colour triples.

use vstd::prelude::*;

verus! {

/// A colour as an ordered triple of 8-bit channel values.
#[derive(Clone, Copy, Debug, PartialEq, Eq, Structural)]
pub struct Rgb {
    pub red: u8,
    pub green: u8,
    pub blue: u8,
}

/// `a` is component-wise less than or equal to `b`.
pub open spec fn rgb_le(a: Rgb, b: Rgb) -> bool {
    a.red <= b.red && a.green <= b.green && a.blue <= b.blue
}

impl Rgb {
    /// Build a colour from its three channels.
    pub fn new(red: u8, green: u8, blue: u8) -> (r: Rgb)
        ensures
            r.red == red,
            r.green == green,
            r.blue == blue,
    {
        Rgb { red, green, blue }
    }

    /// Component-wise difference; the gradient delta between two colours.
    /// The subtrahend must not exceed this colour in any channel.
    pub fn sub(self, rhs: Rgb) -> (r: Rgb)
        requires
            rgb_le(rhs, self),
        ensures
            r.red == self.red - rhs.red,
            r.green == self.green - rhs.green,
            r.blue == self.blue - rhs.blue,
    {
        Rgb { red: self.red - rhs.red, green: self.green - rhs.green, blue: self.blue - rhs.blue }
    }
}

} // verus!
