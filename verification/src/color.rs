//! Colours as they are written out: channels cut off to the range from
//! zero to one, and quantised to one byte each.

use vstd::prelude::*;

verus! {

/// The order key of the number one: the key of a channel at full intensity.
pub const ONE: i64 = 0x3FF0_0000_0000_0000i64;

/// A channel value, given by its order key, cut off to the range from zero
/// to one.
pub open spec fn clamped(x: i64) -> i64 {
    if x > ONE {
        ONE
    } else if x < 0 {
        0
    } else {
        x
    }
}

/// Cuts a channel value off to the range from zero to one. The value and
/// the result are order keys.
pub fn clamp(x: i64) -> (channel: i64)
    ensures
        channel == clamped(x),
        0 <= channel <= ONE,
{
    if x > ONE {
        ONE
    } else if x < 0 {
        0
    } else {
        x
    }
}

/// A colour with 8-bit red, green and blue channels, as written to a raster file.
#[derive(Debug, Clone, Copy, PartialEq, Eq, Structural)]
pub struct RGB {
    pub red: u8,
    pub green: u8,
    pub blue: u8,
}

impl RGB {
    /// Builds a colour from its three channels.
    pub fn new(red: u8, green: u8, blue: u8) -> (rgb: Self)
        ensures
            rgb.red == red,
            rgb.green == green,
            rgb.blue == blue,
    {
        Self { red, green, blue }
    }

    /// The red channel.
    pub fn red(&self) -> (value: u8)
        ensures
            value == self.red,
    {
        self.red
    }

    /// The green channel.
    pub fn green(&self) -> (value: u8)
        ensures
            value == self.green,
    {
        self.green
    }

    /// The blue channel.
    pub fn blue(&self) -> (value: u8)
        ensures
            value == self.blue,
    {
        self.blue
    }
}

} // verus!
