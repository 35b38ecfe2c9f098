//! Color values and color tags carried through to presentation.
//!
//! The core does not implement color management; it only carries color-space
//! and transfer-function tags with each render element, and holds colors as
//! 8-bit RGBA channel values.

use vstd::prelude::*;

verus! {

/// An RGBA color with 8-bit channels.
#[derive(Clone, Copy, Debug, PartialEq, Eq, Structural)]
pub struct ColorRgba {
    pub red: u8,
    pub green: u8,
    pub blue: u8,
    pub alpha: u8,
}

/// The color space a surface's pixel values are expressed in.
#[derive(Clone, Copy, Debug, PartialEq, Eq, Structural)]
pub enum ColorSpace {
    /// The standard non-linear sRGB color space.
    SrgbNonlinear,
    /// HDR10 (BT.2020 primaries with the ST 2084 transfer curve).
    Hdr10St2084,
    /// Display-P3 with a non-linear transfer curve.
    DisplayP3Nonlinear,
    /// Extended-range sRGB with a linear transfer curve.
    ExtendedSrgbLinear,
}

/// The electro-optical transfer function a surface's pixel values use.
#[derive(Clone, Copy, Debug, PartialEq, Eq, Structural)]
pub enum TransferFunction {
    Srgb,
    PerceptualQuantizer,
    Linear,
}

/// Whether a color space asks for high-dynamic-range presentation.
pub open spec fn is_hdr_color_space(cs: ColorSpace) -> bool {
    cs == ColorSpace::Hdr10St2084 || cs == ColorSpace::DisplayP3Nonlinear || cs
        == ColorSpace::ExtendedSrgbLinear
}

} // verus!
