//! Plain-value vocabulary shared by every module: sizes, colours, the
//! surface transform, and what the device bring-up is asked for.

use vstd::prelude::*;

verus! {

/// A two-dimensional size in pixels (or texels).
#[derive(Debug, Clone, Copy, PartialEq, Eq, Structural)]
pub struct Extent {
    /// Columns.
    pub width: u32,
    /// Rows.
    pub height: u32,
}

/// An RGBA colour, each channel held as the IEEE-754 bit pattern of the
/// `f32` it stands for.
///
/// The library never does arithmetic on a colour: it carries the value
/// from a clearing load op to the attachment that clears to it, so the
/// bit pattern is the whole of what it needs, and moving bits is exact.
#[derive(Debug, Clone, Copy, PartialEq, Eq, Structural)]
pub struct Color {
    /// Red channel bits.
    pub r: u32,
    /// Green channel bits.
    pub g: u32,
    /// Blue channel bits.
    pub b: u32,
    /// Alpha channel bits.
    pub a: u32,
}

impl Color {
    /// A colour from the bit patterns of its four channels.
    pub fn from_bits(r: u32, g: u32, b: u32, a: u32) -> (c: Self)
        ensures
            c == (Color { r, g, b, a }),
    {
        Color { r, g, b, a }
    }
}

/// The rotation a presentation surface declares, as a renderer can fold
/// it.
#[derive(Debug, Clone, Copy, PartialEq, Eq, Structural)]
pub enum SurfaceTransform {
    /// No rotation — and every transform that is not one of the three
    /// rotations below.
    Identity,
    /// A quarter turn clockwise.
    Rotate90,
    /// A half turn.
    Rotate180,
    /// Three quarter turns clockwise.
    Rotate270,
}

/// What kind of adapter the device runs on, in preference order.
#[derive(Debug, Clone, Copy, PartialEq, Eq, Structural)]
pub enum AdapterKind {
    /// A discrete GPU.
    DiscreteGpu,
    /// A GPU integrated with the CPU.
    IntegratedGpu,
    /// A GPU exposed through virtualisation.
    VirtualGpu,
    /// A CPU rasterizer.
    SoftwareRasterizer,
    /// Anything else the driver reports.
    Other,
}

/// The adapter the device was brought up on.
#[derive(Debug, Clone, PartialEq, Eq)]
pub struct AdapterInfo {
    /// The driver's name for the adapter.
    pub name: String,
    /// Its kind.
    pub kind: AdapterKind,
    /// The driver version, as the driver encodes it.
    pub driver_version: u32,
    /// The PCI vendor ID.
    pub vendor_id: u32,
    /// The vendor's device ID.
    pub device_id: u32,
}

/// Whether the validation layer is enabled at bring-up.
#[derive(Debug, Clone, Copy, PartialEq, Eq, Structural)]
pub enum Validation {
    /// Never enabled.
    Off,
    /// Enabled when the layer is installed.
    IfAvailable,
    /// Enabled, and bring-up fails when the layer is missing.
    Required,
}

} // verus!
