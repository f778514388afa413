use vstd::prelude::*;

use crate::geometry::Point;

verus! {

/// A color of three 8-bit channels.
#[derive(Clone, Copy, Debug, PartialEq, Eq, Structural)]
pub struct Rgb {
    pub r: u8,
    pub g: u8,
    pub b: u8,
}

/// One channel attenuated by `brightness / 255`, truncated toward zero.
pub open spec fn scale_spec(channel: u8, brightness: u8) -> u8 {
    (channel * brightness / 255) as u8
}

/// Exec form of [`scale_spec`].
pub fn scale_channel(channel: u8, brightness: u8) -> (r: u8)
    ensures
        r == scale_spec(channel, brightness),
        r as int == channel as int * brightness as int / 255,
{
    assert(channel as int * brightness as int <= 255 * 255) by (nonlinear_arith)
        requires
            channel <= 255,
            brightness <= 255,
    ;
    let product: u16 = (channel as u16) * (brightness as u16);
    (product / 255) as u8
}

impl Rgb {
    pub fn new(r: u8, g: u8, b: u8) -> (c: Rgb)
        ensures
            c.r == r && c.g == g && c.b == b,
    {
        Rgb { r, g, b }
    }

    /// This color with every channel scaled by `brightness / 255`.
    pub open spec fn scaled_spec(self, brightness: u8) -> Rgb {
        Rgb {
            r: scale_spec(self.r, brightness),
            g: scale_spec(self.g, brightness),
            b: scale_spec(self.b, brightness),
        }
    }

    pub fn scaled(&self, brightness: u8) -> (c: Rgb)
        ensures
            c == self.scaled_spec(brightness),
    {
        Rgb {
            r: scale_channel(self.r, brightness),
            g: scale_channel(self.g, brightness),
            b: scale_channel(self.b, brightness),
        }
    }
}

/// A color to be drawn at a logical position.
#[derive(Clone, Copy, Debug, PartialEq, Eq, Structural)]
pub struct Pixel(pub Point, pub Rgb);

} // verus!
