//! Pixel colors with one byte per channel.

use vstd::prelude::*;

verus! {

/// One pixel: red, green and blue bytes.
#[derive(Debug, Clone, Copy, PartialEq, Eq, Structural)]
pub struct Color {
    pub r: u8,
    pub g: u8,
    pub b: u8,
}

/// A fixed-point channel value truncated to one byte, saturating at both
/// ends: negative values give 0, values of 256 or more give 255.
pub open spec fn channel_of(v: int) -> int {
    if v < 0 {
        0
    } else if v >= 16777216 {
        255
    } else {
        v / 65536
    }
}

impl Color {
    /// The black pixel.
    pub fn black() -> (r: Color)
        ensures
            r.r == 0 && r.g == 0 && r.b == 0,
    {
        Color { r: 0, g: 0, b: 0 }
    }

    /// The white pixel.
    pub fn white() -> (r: Color)
        ensures
            r.r == 255 && r.g == 255 && r.b == 255,
    {
        Color { r: 255, g: 255, b: 255 }
    }

    /// The channels as an array, red first.
    pub fn to_rgb(&self) -> (r: [u8; 3])
        ensures
            r@ == seq![self.r, self.g, self.b],
    {
        let a = [self.r, self.g, self.b];
        proof {
            assert(a@ =~= seq![self.r, self.g, self.b]);
        }
        a
    }

    /// Builds a pixel from the given channel bytes.
    pub fn from_rgb(r: u8, g: u8, b: u8) -> (c: Color)
        ensures
            c.r == r && c.g == g && c.b == b,
    {
        Color { r, g, b }
    }

    /// The channelwise average of two pixels, each channel rounded down.
    pub fn add(self, other: Color) -> (c: Color)
        ensures
            c.r == ((self.r + other.r) / 2) as u8,
            c.g == ((self.g + other.g) / 2) as u8,
            c.b == ((self.b + other.b) / 2) as u8,
    {
        Color {
            r: ((self.r as u16 + other.r as u16) / 2) as u8,
            g: ((self.g as u16 + other.g as u16) / 2) as u8,
            b: ((self.b as u16 + other.b as u16) / 2) as u8,
        }
    }
}

/// Quantizes a fixed-point channel to one byte, saturating at both ends.
pub fn fixed_to_u8(v: i64) -> (r: u8)
    ensures
        r == channel_of(v as int),
{
    if v < 0 {
        0
    } else if v >= 16777216 {
        255
    } else {
        ((v as u64) / 65536) as u8
    }
}

} // verus!
