//! Sampled-image descriptors: the size contract a texture is created
//! under, checked before any device call.

use vstd::prelude::*;
use crate::config::Extent;
use crate::error::TargetError;

verus! {

/// Bytes per pixel of the fixed RGBA8 format.
pub const BPP: u64 = 4;

/// The pixels and dimensions of a sampled image.
#[derive(Debug, Clone, Copy)]
pub struct TextureDesc<'a> {
    /// Dimensions in texels. Neither may be zero.
    pub extent: Extent,
    /// Tightly packed RGBA8 rows, top row first: exactly
    /// `width * height * 4` bytes.
    pub rgba8: &'a [u8],
}

impl<'a> TextureDesc<'a> {
    /// A texture of `extent`, filled from `rgba8`.
    pub fn new(extent: Extent, rgba8: &'a [u8]) -> (d: Self)
        ensures
            d.extent == extent,
            d.rgba8@ == rgba8@,
    {
        TextureDesc { extent, rgba8 }
    }
}

/// No memory type satisfies a resource's requirements: not a driver
/// refusal, so it carries no result code.
pub fn no_memory_type(call: &'static str) -> (e: TargetError)
    ensures
        e == (TargetError::Creation { call, code: 0 }),
{
    TargetError::Creation { call, code: 0 }
}

/// The byte count an extent of RGBA8 pixels needs.
pub open spec fn spec_required_bytes(extent: Extent) -> int {
    extent.width * extent.height * BPP
}

/// The byte length `extent` demands, or `None` when it does not fit a
/// `u64` — checked arithmetic, never a wrapped size.
pub fn required_bytes(extent: Extent) -> (r: Option<u64>)
    ensures
        spec_required_bytes(extent) <= u64::MAX ==> r == Some(spec_required_bytes(extent) as u64),
        spec_required_bytes(extent) > u64::MAX ==> r is None,
{
    let width = extent.width as u64;
    let height = extent.height as u64;
    proof {
        assert(width * height <= u32::MAX as int * u32::MAX as int) by (nonlinear_arith)
            requires width <= u32::MAX, height <= u32::MAX;
    }
    let pixels = width * height;
    if pixels > u64::MAX / BPP {
        None
    } else {
        Some(pixels * BPP)
    }
}

/// Which size rule a texture breaks, if any: a zero extent, an extent
/// past the device limit (reported before anything derived from it),
/// an unrepresentable byte count, a pixel slice of the wrong length.
pub open spec fn texture_refusal(extent: Extent, pixel_len: int, max_dimension: u32) -> Option<&'static str> {
    if extent.width == 0 || extent.height == 0 {
        Some("create_texture(zero extent)")
    } else if extent.width > max_dimension || extent.height > max_dimension {
        Some("create_texture(extent exceeds the device limit)")
    } else if spec_required_bytes(extent) > u64::MAX {
        Some("create_texture(extent overflows)")
    } else if pixel_len != spec_required_bytes(extent) {
        Some("create_texture(pixel length)")
    } else {
        None
    }
}

/// A texture descriptor is accepted exactly when its extent is non-empty
/// and within the device limit in both dimensions, its byte count is
/// representable, and its pixels are exactly four bytes for each texel
/// of the extent.
pub proof fn lemma_accepted_texture_fits(extent: Extent, pixel_len: int, max_dimension: u32)
    ensures
        texture_refusal(extent, pixel_len, max_dimension) is None <==> {
            &&& 0 < extent.width <= max_dimension
            &&& 0 < extent.height <= max_dimension
            &&& extent.width * extent.height * 4 <= u64::MAX
            &&& pixel_len == extent.width * extent.height * 4
        },
{
}

/// Check a texture descriptor, returning the byte count the upload
/// copies — or the rule it breaks, by name.
pub fn check_desc(desc: &TextureDesc, max_dimension: u32) -> (r: Result<u64, TargetError>)
    ensures
        match texture_refusal(desc.extent, desc.rgba8@.len() as int, max_dimension) {
            Some(call) => r == Err::<u64, TargetError>(TargetError::Creation { call, code: 0 }),
            None => r == Ok::<u64, TargetError>(spec_required_bytes(desc.extent) as u64),
        },
{
    if desc.extent.width == 0 || desc.extent.height == 0 {
        return Err(TargetError::Creation { call: "create_texture(zero extent)", code: 0 });
    }
    if desc.extent.width > max_dimension || desc.extent.height > max_dimension {
        return Err(TargetError::Creation { call: "create_texture(extent exceeds the device limit)", code: 0 });
    }
    let needed = match required_bytes(desc.extent) {
        None => return Err(TargetError::Creation { call: "create_texture(extent overflows)", code: 0 }),
        Some(needed) => needed,
    };
    if desc.rgba8.len() as u64 != needed {
        return Err(TargetError::Creation { call: "create_texture(pixel length)", code: 0 });
    }
    Ok(needed)
}

} // verus!
