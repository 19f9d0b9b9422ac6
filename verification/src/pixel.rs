use vstd::prelude::*;

verus! {

/// One RGB pixel.  The rasterizer only ever produces pure white and pure
/// black pixels; icon rasters may hold any colour.
#[derive(Clone, Copy, Debug, PartialEq, Eq, Structural)]
pub struct Pixel {
    pub r: u8,
    pub g: u8,
    pub b: u8,
}

/// Pure white, the background and safe-area colour.
pub open spec fn white() -> Pixel {
    Pixel { r: 255, g: 255, b: 255 }
}

/// Pure black, the colour of a dark module.
pub open spec fn black() -> Pixel {
    Pixel { r: 0, g: 0, b: 0 }
}

/// Executable counterpart of [`white`].
pub fn white_pixel() -> (p: Pixel)
    ensures
        p == white(),
{
    Pixel { r: 255, g: 255, b: 255 }
}

/// Executable counterpart of [`black`].
pub fn black_pixel() -> (p: Pixel)
    ensures
        p == black(),
{
    Pixel { r: 0, g: 0, b: 0 }
}

} // verus!
