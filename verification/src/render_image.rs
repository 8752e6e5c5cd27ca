//! Render images: what one pass writes and a later pass samples — their
//! descriptor, the extent rule they are created under, and the format,
//! usage and feature decision their kind makes.

use vstd::prelude::*;
use crate::config::Extent;
use crate::error::TargetError;
use crate::formats::{
    spec_contains, contains, FEATURE_COLOR_ATTACHMENT, FEATURE_DEPTH_STENCIL_ATTACHMENT,
    FEATURE_SAMPLED_IMAGE, FORMAT_R8G8B8A8_UNORM,
};
use crate::pipeline::CHAIN_NAMES;

verus! {

/// Which attachment slot of a pass a render image can fill.
#[derive(Debug, Clone, Copy, PartialEq, Eq, Structural)]
pub enum RenderImageKind {
    /// A colour target: `Rgba8Unorm`, drawable and sampleable.
    Color,
    /// A depth target in the device's chosen depth format.
    Depth,
}

/// Everything a render image needs: its kind and its size.
#[derive(Debug, Clone, Copy, PartialEq, Eq, Structural)]
pub struct RenderImageDesc {
    /// Which attachment slot this image can fill.
    pub kind: RenderImageKind,
    /// The image's size in pixels.
    pub extent: Extent,
    /// Whether the image's contents persist across frames.
    pub kept: bool,
}

impl RenderImageDesc {
    /// A render image of `kind`, sized `extent`, frame-scoped.
    pub fn new(kind: RenderImageKind, extent: Extent) -> (d: Self)
        ensures
            d == (RenderImageDesc { kind, extent, kept: false }),
    {
        RenderImageDesc { kind, extent, kept: false }
    }

    /// The same image, keeping its contents across frames.
    pub fn kept(self) -> (d: Self)
        ensures
            d == (RenderImageDesc { kept: true, ..self }),
    {
        RenderImageDesc { kept: true, ..self }
    }
}

/// Which rule a render-image extent breaks, if any: zero in either
/// dimension first, then past the device's `maxImageDimension2D`.
pub open spec fn render_image_extent_refusal(extent: Extent, max_dimension: u32) -> Option<&'static str> {
    if extent.width == 0 || extent.height == 0 {
        Some("create_render_image(zero extent)")
    } else if extent.width > max_dimension || extent.height > max_dimension {
        Some("create_render_image(extent exceeds the device limit)")
    } else {
        None
    }
}

/// A render-image extent is accepted exactly when it is non-empty and
/// within the device limit in both dimensions.
pub proof fn lemma_render_image_extent_fits(extent: Extent, max_dimension: u32)
    ensures
        render_image_extent_refusal(extent, max_dimension) is None <==> (0 < extent.width <= max_dimension && 0
            < extent.height <= max_dimension),
{
}

/// Refuse a malformed render-image extent, by name.
pub fn check_extent(extent: Extent, max_dimension: u32) -> (r: Result<(), TargetError>)
    ensures
        match render_image_extent_refusal(extent, max_dimension) {
            None => r is Ok,
            Some(call) => r == Err::<(), TargetError>(TargetError::Creation { call, code: 0 }),
        },
{
    if extent.width == 0 || extent.height == 0 {
        return Err(TargetError::Creation { call: "create_render_image(zero extent)", code: 0 });
    }
    if extent.width > max_dimension || extent.height > max_dimension {
        return Err(TargetError::Creation {
            call: "create_render_image(extent exceeds the device limit)",
            code: 0,
        });
    }
    Ok(())
}

/// What a render image's kind decides at creation.
#[derive(Debug, Clone, Copy, PartialEq, Eq, Structural)]
pub struct RenderImagePlan {
    /// The Vulkan format.
    pub format: i32,
    /// Whether the image is a depth attachment (else a colour one);
    /// either way it is also sampled.
    pub depth: bool,
    /// The optimal-tiling features the format must offer.
    pub needed_features: u32,
}

/// The format and required features a render image of `kind` is
/// created with: `Rgba8Unorm` for colour, the device's chosen depth
/// format for depth — refused when the device has none.
pub fn render_image_plan(kind: RenderImageKind, depth_format: Option<i32>) -> (r: Result<RenderImagePlan, TargetError>)
    ensures
        kind == RenderImageKind::Color ==> r == Ok::<RenderImagePlan, TargetError>(RenderImagePlan {
            format: FORMAT_R8G8B8A8_UNORM,
            depth: false,
            needed_features: FEATURE_SAMPLED_IMAGE | FEATURE_COLOR_ATTACHMENT,
        }),
        kind == RenderImageKind::Depth && depth_format is Some ==> r == Ok::<RenderImagePlan, TargetError>(RenderImagePlan {
            format: depth_format->0,
            depth: true,
            needed_features: FEATURE_SAMPLED_IMAGE | FEATURE_DEPTH_STENCIL_ATTACHMENT,
        }),
        kind == RenderImageKind::Depth && depth_format is None
            ==> r == Err::<RenderImagePlan, TargetError>(TargetError::DepthUnsupported { chain: CHAIN_NAMES }),
{
    match kind {
        RenderImageKind::Color => Ok(RenderImagePlan {
            format: FORMAT_R8G8B8A8_UNORM,
            depth: false,
            needed_features: FEATURE_SAMPLED_IMAGE | FEATURE_COLOR_ATTACHMENT,
        }),
        RenderImageKind::Depth => match depth_format {
            Some(format) => Ok(RenderImagePlan {
                format,
                depth: true,
                needed_features: FEATURE_SAMPLED_IMAGE | FEATURE_DEPTH_STENCIL_ATTACHMENT,
            }),
            None => Err(TargetError::DepthUnsupported { chain: CHAIN_NAMES }),
        },
    }
}

/// The pre-check against the adapter's own feature report: a format
/// that cannot be both sampled and attached is refused at creation.
pub fn check_format_features(plan: RenderImagePlan, optimal_tiling_features: u32) -> (r: Result<(), TargetError>)
    ensures
        spec_contains(optimal_tiling_features, plan.needed_features) ==> r is Ok,
        !spec_contains(optimal_tiling_features, plan.needed_features) ==> r == Err::<(), TargetError>(
            TargetError::Creation { call: "create_render_image(the adapter cannot sample this format)", code: 0 },
        ),
{
    if contains(optimal_tiling_features, plan.needed_features) {
        Ok(())
    } else {
        Err(TargetError::Creation { call: "create_render_image(the adapter cannot sample this format)", code: 0 })
    }
}

} // verus!
