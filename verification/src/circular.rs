//! The integer and discrete rules of circular bars: which axis the value
//! drives, what the frame outline tracks, and the pixel scale.
use vstd::prelude::*;

verus! {

/// Which axis the value drives.
#[derive(Clone, Copy, Debug, PartialEq, Eq, Hash, Structural)]
pub enum FillAxis {
    /// The end angle interpolates between min and max.
    Angle,
    /// The outer radius interpolates between min and max.
    Radius,
}

/// What the frame outline tracks.
#[derive(Clone, Copy, Debug, PartialEq, Eq, Hash, Structural)]
pub enum FrameAnchor {
    /// Outline hugs whichever of `value`/`displayed` is larger.
    Lead,
    /// Outline hugs whichever of `value`/`displayed` is smaller.
    Fill,
    /// Outline is fixed at the bar's full extent.
    Full,
}

impl FrameAnchor {
    /// The frame extent under this anchor, out of the lead extent, the fill
    /// extent and the bar's full extent.
    pub fn pick<G>(self, lead: G, fill: G, full: G) -> (r: G)
        ensures
            r == match self {
                FrameAnchor::Lead => lead,
                FrameAnchor::Fill => fill,
                FrameAnchor::Full => full,
            },
    {
        match self {
            FrameAnchor::Lead => lead,
            FrameAnchor::Fill => fill,
            FrameAnchor::Full => full,
        }
    }
}

/// The integer up-scale a bar renders at: its configured pixel size, and at
/// least 1.
pub fn effective_pixel_size(pixel_size: u32) -> (r: u32)
    ensures
        r == if pixel_size >= 1 { pixel_size } else { 1 },
        r >= 1,
{
    pixel_size.max(1)
}

} // verus!
