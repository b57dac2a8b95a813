//! The pixel data model: an ordered triple of independent 8-bit brightness
//! channels. Equality is exact channel-wise equality; the zero value means
//! "off".

use vstd::prelude::*;

verus! {

/// One addressable LED: three independent 8-bit brightness channels.
#[derive(Clone, Copy, PartialEq, Eq, Structural, Debug)]
pub struct Pixel {
    pub r: u8,
    pub g: u8,
    pub b: u8,
}

/// The "off" value: every channel at zero.
pub open spec fn off() -> Pixel {
    Pixel { r: 0, g: 0, b: 0 }
}

impl Pixel {
    /// Builds a pixel from its three channel values.
    pub fn new(r: u8, g: u8, b: u8) -> (p: Pixel)
        ensures
            p == (Pixel { r, g, b }),
    {
        Pixel { r, g, b }
    }

    /// True when every channel is dark.
    pub open spec fn is_off(self) -> bool {
        self == off()
    }
}

impl Default for Pixel {
    /// The default pixel is off.
    fn default() -> (p: Pixel)
        ensures
            p == off(),
    {
        Pixel { r: 0, g: 0, b: 0 }
    }
}

} // verus!
