//! Sizes of images.

use vstd::prelude::*;

verus! {

/// The width of one eye's camera image; the camera gives two of them side by side.
pub const CAMERA_SIZE: u32 = 960;

#[derive(Debug, Clone, Copy, PartialEq, Eq, Structural)]
pub struct Size {
    pub width: u32,
    pub height: u32,
}

impl Size {
    pub fn new(width: u32, height: u32) -> (r: Size)
        ensures
            r.width == width,
            r.height == height,
    {
        Size { width, height }
    }
}

} // verus!
