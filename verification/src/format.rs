//! Pixel formats and frame formats as the driver reports them.

use vstd::prelude::*;

verus! {

/// A pixel format identifier, the four-character code the driver uses.
#[derive(Clone, Copy, Debug, PartialEq, Eq, Structural)]
pub struct PixelFormat(pub u32);

/// Flag bits attached to an enumerated format.
#[derive(Clone, Copy, Debug, PartialEq, Eq, Structural)]
pub struct FormatFlags(pub u32);

/// Bit set on formats that carry compressed bitstream data.
pub const FORMAT_FLAG_COMPRESSED: u32 = 0x0001;

impl FormatFlags {
    /// Whether any bit of `mask` is set.
    pub open spec fn spec_contains(self, mask: u32) -> bool {
        self.0 & mask != 0
    }

    pub fn contains(self, mask: u32) -> (r: bool)
        ensures
            r == self.spec_contains(mask),
    {
        self.0 & mask != 0
    }
}

/// A frame format on one queue: resolution and pixel format.
#[derive(Clone, Copy, Debug, PartialEq, Eq, Structural)]
pub struct Format {
    pub width: u32,
    pub height: u32,
    pub pixelformat: PixelFormat,
}

/// One entry of the list of formats a queue supports.
#[derive(Clone, Copy, Debug, PartialEq, Eq, Structural)]
pub struct FormatDesc {
    pub pixelformat: PixelFormat,
    pub flags: FormatFlags,
}

} // verus!
