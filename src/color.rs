//! Colors of the overlay surfaces.

use vstd::prelude::*;

verus! {

/// An overlay color: red, green and blue, and the opacity as a byte (0 fully
/// transparent, 255 opaque).
#[derive(Debug, Clone, Copy, PartialEq, Eq, Structural)]
pub struct OverlayColor {
    pub r: u8,
    pub g: u8,
    pub b: u8,
    pub alpha: u8,
}

impl OverlayColor {
    pub fn new(r: u8, g: u8, b: u8, alpha: u8) -> (c: Self)
        ensures
            c == (OverlayColor { r, g, b, alpha }),
    {
        OverlayColor { r, g, b, alpha }
    }

    /// The color as a Windows `COLORREF`: `0x00bbggrr`.
    pub fn to_colorref(&self) -> (v: u32)
        ensures
            v == self.b as int * 0x10000 + self.g as int * 0x100 + self.r as int,
    {
        let r = self.r as u32;
        let g = self.g as u32;
        let b = self.b as u32;
        assert((b << 16u32) | (g << 8u32) | r == b * 0x10000 + g * 0x100 + r) by (bit_vector)
            requires
                r < 256,
                g < 256,
                b < 256,
        ;
        (b << 16u32) | (g << 8u32) | r
    }
}

impl Default for OverlayColor {
    /// Black at half opacity.
    fn default() -> (c: Self)
        ensures
            c == (OverlayColor { r: 0, g: 0, b: 0, alpha: 127 }),
    {
        OverlayColor { r: 0, g: 0, b: 0, alpha: 127 }
    }
}

} // verus!
