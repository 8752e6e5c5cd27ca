//! The Vulkan enumerant values the library reasons about, by name.
//!
//! The library decides *which* format, layout, stage or access a step
//! uses; the values here are the numbers the Vulkan registry assigns to
//! those choices, so the edge that talks to the driver hands them over
//! unchanged.

use vstd::prelude::*;

verus! {

/// `VK_FORMAT_UNDEFINED`.
pub const FORMAT_UNDEFINED: i32 = 0;
/// `VK_FORMAT_R8G8B8A8_UNORM`.
pub const FORMAT_R8G8B8A8_UNORM: i32 = 37;
/// `VK_FORMAT_R8G8B8A8_SRGB`.
pub const FORMAT_R8G8B8A8_SRGB: i32 = 43;
/// `VK_FORMAT_B8G8R8A8_UNORM`.
pub const FORMAT_B8G8R8A8_UNORM: i32 = 44;
/// `VK_FORMAT_B8G8R8A8_SRGB`.
pub const FORMAT_B8G8R8A8_SRGB: i32 = 50;
/// `VK_FORMAT_R32G32_SFLOAT`.
pub const FORMAT_R32G32_SFLOAT: i32 = 103;
/// `VK_FORMAT_R32G32B32_SFLOAT`.
pub const FORMAT_R32G32B32_SFLOAT: i32 = 106;
/// `VK_FORMAT_R32G32B32A32_SFLOAT`.
pub const FORMAT_R32G32B32A32_SFLOAT: i32 = 109;
/// `VK_FORMAT_D32_SFLOAT`.
pub const FORMAT_D32_SFLOAT: i32 = 126;
/// `VK_FORMAT_D24_UNORM_S8_UINT`.
pub const FORMAT_D24_UNORM_S8_UINT: i32 = 129;

/// `VK_COLOR_SPACE_SRGB_NONLINEAR_KHR`.
pub const COLOR_SPACE_SRGB_NONLINEAR: i32 = 0;

/// `VK_FORMAT_FEATURE_SAMPLED_IMAGE_BIT`.
pub const FEATURE_SAMPLED_IMAGE: u32 = 0x1;
/// `VK_FORMAT_FEATURE_COLOR_ATTACHMENT_BIT`.
pub const FEATURE_COLOR_ATTACHMENT: u32 = 0x80;
/// `VK_FORMAT_FEATURE_DEPTH_STENCIL_ATTACHMENT_BIT`.
pub const FEATURE_DEPTH_STENCIL_ATTACHMENT: u32 = 0x200;

/// `VK_MEMORY_PROPERTY_DEVICE_LOCAL_BIT`.
pub const MEMORY_DEVICE_LOCAL: u32 = 0x1;
/// `VK_MEMORY_PROPERTY_HOST_VISIBLE_BIT`.
pub const MEMORY_HOST_VISIBLE: u32 = 0x2;
/// `VK_MEMORY_PROPERTY_HOST_COHERENT_BIT`.
pub const MEMORY_HOST_COHERENT: u32 = 0x4;
/// `VK_MAX_MEMORY_TYPES`: the width of the driver's memory-type table.
pub const MAX_MEMORY_TYPES: u32 = 32;

/// `VK_QUEUE_GRAPHICS_BIT`.
pub const QUEUE_GRAPHICS: u32 = 0x1;
/// `VK_QUEUE_COMPUTE_BIT`.
pub const QUEUE_COMPUTE: u32 = 0x2;
/// `VK_QUEUE_TRANSFER_BIT`.
pub const QUEUE_TRANSFER: u32 = 0x4;

/// `VK_SUCCESS`.
pub const RESULT_SUCCESS: i32 = 0;
/// `VK_NOT_READY`.
pub const RESULT_NOT_READY: i32 = 1;
/// `VK_TIMEOUT`.
pub const RESULT_TIMEOUT: i32 = 2;
/// `VK_ERROR_OUT_OF_HOST_MEMORY`.
pub const RESULT_ERROR_OUT_OF_HOST_MEMORY: i32 = -1;
/// `VK_ERROR_OUT_OF_DEVICE_MEMORY`.
pub const RESULT_ERROR_OUT_OF_DEVICE_MEMORY: i32 = -2;
/// `VK_ERROR_DEVICE_LOST`.
pub const RESULT_ERROR_DEVICE_LOST: i32 = -4;
/// `VK_ERROR_INCOMPATIBLE_DRIVER`.
pub const RESULT_ERROR_INCOMPATIBLE_DRIVER: i32 = -9;
/// `VK_SUBOPTIMAL_KHR`.
pub const RESULT_SUBOPTIMAL: i32 = 1000001003;
/// `VK_ERROR_OUT_OF_DATE_KHR`.
pub const RESULT_ERROR_OUT_OF_DATE: i32 = -1000001004;

/// Whether every bit of `wanted` is set in `flags` — the one question
/// a Vulkan flag set is ever asked here.
pub open spec fn spec_contains(flags: u32, wanted: u32) -> bool {
    flags & wanted == wanted
}

/// Whether every bit of `wanted` is set in `flags`.
pub fn contains(flags: u32, wanted: u32) -> (r: bool)
    ensures
        r == spec_contains(flags, wanted),
{
    flags & wanted == wanted
}

} // verus!
