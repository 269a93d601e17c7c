//! The cached texture resource: the plain facts the renderer core reads of
//! an image the device holds.

use vstd::prelude::*;

verus! {

/// A cached texture: its pixel dimensions and raw format.
#[derive(Copy, Clone, Debug, PartialEq, Eq, Structural)]
pub struct Texture {
    pub width: u32,
    pub height: u32,
    pub format: u32,
}

impl Texture {
    pub fn new(width: u32, height: u32, format: u32) -> (r: Texture)
        ensures
            r.width == width,
            r.height == height,
            r.format == format,
    {
        Texture { width, height, format }
    }

    /// The raw format of this texture.
    pub fn format(&self) -> (r: u32)
        ensures
            r == self.format,
    {
        self.format
    }
}

} // verus!
