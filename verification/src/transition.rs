//! Pass-boundary image barriers as a pure function, and the excluded
//! sites' mask literals as named values.
//!
//! The core covers exactly the barriers that are a function of
//! (previous use, next use) at a pass boundary. Three barrier classes
//! are deliberately outside it: the window target's acquire-chained
//! first use (its source stage exists for semaphore chaining), the
//! terminal present/transfer transitions (not passes), and the
//! offscreen host-readback buffer barrier (not an image transition).

use vstd::prelude::*;

verus! {

/// `VK_PIPELINE_STAGE_2_NONE`.
pub const STAGE_NONE: u64 = 0;
/// `VK_PIPELINE_STAGE_2_FRAGMENT_SHADER_BIT`.
pub const STAGE_FRAGMENT_SHADER: u64 = 0x80;
/// `VK_PIPELINE_STAGE_2_EARLY_FRAGMENT_TESTS_BIT`.
pub const STAGE_EARLY_FRAGMENT_TESTS: u64 = 0x100;
/// `VK_PIPELINE_STAGE_2_LATE_FRAGMENT_TESTS_BIT`.
pub const STAGE_LATE_FRAGMENT_TESTS: u64 = 0x200;
/// `VK_PIPELINE_STAGE_2_COLOR_ATTACHMENT_OUTPUT_BIT`.
pub const STAGE_COLOR_ATTACHMENT_OUTPUT: u64 = 0x400;
/// `VK_PIPELINE_STAGE_2_ALL_TRANSFER_BIT` (`TRANSFER`).
pub const STAGE_TRANSFER: u64 = 0x1000;
/// `VK_PIPELINE_STAGE_2_HOST_BIT`.
pub const STAGE_HOST: u64 = 0x4000;
/// `VK_PIPELINE_STAGE_2_ALL_COMMANDS_BIT`.
pub const STAGE_ALL_COMMANDS: u64 = 0x1_0000;
/// `VK_PIPELINE_STAGE_2_COPY_BIT`.
pub const STAGE_COPY: u64 = 0x1_0000_0000;

/// `VK_ACCESS_2_NONE`.
pub const ACCESS_NONE: u64 = 0;
/// `VK_ACCESS_2_COLOR_ATTACHMENT_READ_BIT`.
pub const ACCESS_COLOR_ATTACHMENT_READ: u64 = 0x80;
/// `VK_ACCESS_2_COLOR_ATTACHMENT_WRITE_BIT`.
pub const ACCESS_COLOR_ATTACHMENT_WRITE: u64 = 0x100;
/// `VK_ACCESS_2_DEPTH_STENCIL_ATTACHMENT_READ_BIT`.
pub const ACCESS_DEPTH_STENCIL_ATTACHMENT_READ: u64 = 0x200;
/// `VK_ACCESS_2_DEPTH_STENCIL_ATTACHMENT_WRITE_BIT`.
pub const ACCESS_DEPTH_STENCIL_ATTACHMENT_WRITE: u64 = 0x400;
/// `VK_ACCESS_2_TRANSFER_READ_BIT`.
pub const ACCESS_TRANSFER_READ: u64 = 0x800;
/// `VK_ACCESS_2_TRANSFER_WRITE_BIT`.
pub const ACCESS_TRANSFER_WRITE: u64 = 0x1000;
/// `VK_ACCESS_2_HOST_READ_BIT`.
pub const ACCESS_HOST_READ: u64 = 0x2000;
/// `VK_ACCESS_2_SHADER_SAMPLED_READ_BIT`.
pub const ACCESS_SHADER_SAMPLED_READ: u64 = 0x1_0000_0000;

/// The fragment-test stages depth loads, tests and writes run in.
pub const STAGES_FRAGMENT_TESTS: u64 = 0x300;
/// Depth read and write together.
pub const ACCESS_DEPTH_READ_WRITE: u64 = 0x600;
/// Colour read and write together.
pub const ACCESS_COLOR_READ_WRITE: u64 = 0x180;

/// The combined masks are exactly the unions of the bits they name.
pub proof fn lemma_combined_masks()
    ensures
        STAGES_FRAGMENT_TESTS == STAGE_EARLY_FRAGMENT_TESTS | STAGE_LATE_FRAGMENT_TESTS,
        ACCESS_DEPTH_READ_WRITE == ACCESS_DEPTH_STENCIL_ATTACHMENT_READ | ACCESS_DEPTH_STENCIL_ATTACHMENT_WRITE,
        ACCESS_COLOR_READ_WRITE == ACCESS_COLOR_ATTACHMENT_READ | ACCESS_COLOR_ATTACHMENT_WRITE,
{
    assert(0x300u64 == 0x100u64 | 0x200u64) by (bit_vector);
    assert(0x600u64 == 0x200u64 | 0x400u64) by (bit_vector);
    assert(0x180u64 == 0x80u64 | 0x100u64) by (bit_vector);
}

/// The image layouts a barrier here moves between.
#[derive(Debug, Clone, Copy, PartialEq, Eq, Structural)]
pub enum ImageLayout {
    /// Contents undefined (and, for a buffer barrier, "no layout").
    Undefined,
    /// A colour attachment.
    ColorAttachmentOptimal,
    /// A depth/stencil attachment.
    DepthStencilAttachmentOptimal,
    /// Sampled by shaders.
    ShaderReadOnlyOptimal,
    /// The source of a transfer.
    TransferSrcOptimal,
    /// The destination of a transfer.
    TransferDstOptimal,
    /// Handed to the presentation engine.
    PresentSrc,
}

/// The Vulkan value of a layout.
pub open spec fn spec_layout_code(layout: ImageLayout) -> i32 {
    match layout {
        ImageLayout::Undefined => 0,
        ImageLayout::ColorAttachmentOptimal => 2,
        ImageLayout::DepthStencilAttachmentOptimal => 3,
        ImageLayout::ShaderReadOnlyOptimal => 5,
        ImageLayout::TransferSrcOptimal => 6,
        ImageLayout::TransferDstOptimal => 7,
        ImageLayout::PresentSrc => 1_000_001_002,
    }
}

impl ImageLayout {
    /// The Vulkan value of this layout.
    pub fn code(self) -> (r: i32)
        ensures
            r == spec_layout_code(self),
    {
        match self {
            ImageLayout::Undefined => 0,
            ImageLayout::ColorAttachmentOptimal => 2,
            ImageLayout::DepthStencilAttachmentOptimal => 3,
            ImageLayout::ShaderReadOnlyOptimal => 5,
            ImageLayout::TransferSrcOptimal => 6,
            ImageLayout::TransferDstOptimal => 7,
            ImageLayout::PresentSrc => 1_000_001_002,
        }
    }
}

/// The masks and layouts of one image barrier, ready for a site to pour
/// into a barrier against its own image and aspect.
#[derive(Debug, Clone, Copy, PartialEq, Eq, Structural)]
pub struct BarrierMasks {
    /// Stages the barrier waits on.
    pub src_stage: u64,
    /// Accesses made available.
    pub src_access: u64,
    /// Stages the barrier blocks.
    pub dst_stage: u64,
    /// Accesses made visible.
    pub dst_access: u64,
    /// The layout the image leaves.
    pub old_layout: ImageLayout,
    /// The layout the image enters.
    pub new_layout: ImageLayout,
}

/// How a pass uses an attachment image, as the barrier core sees it.
#[derive(Debug, Clone, Copy, PartialEq, Eq, Structural)]
pub enum ImageUse {
    /// This frame's first use of the target's colour attachment.
    ColorAttachmentFirstUse,
    /// A colour attachment a previous pass wrote this frame.
    ColorAttachment,
    /// This frame's first use of the target's depth attachment.
    DepthAttachmentFirstUse,
    /// A depth attachment a previous pass wrote this frame.
    DepthAttachment,
    /// This frame's first use of a render image as a colour target: one
    /// physical image across frames in flight, so the previous frame's
    /// work on it is waited for.
    RenderColorFirstUse,
    /// The depth twin of [`ImageUse::RenderColorFirstUse`].
    RenderDepthFirstUse,
    /// A render image this frame rendered, now sampled.
    SampledInPass,
}

/// Whether some pass boundary moves an attachment `from` → `to`.
pub open spec fn spec_is_pass_boundary(from: ImageUse, to: ImageUse) -> bool {
    match (from, to) {
        (ImageUse::ColorAttachmentFirstUse, ImageUse::ColorAttachment) => true,
        (ImageUse::ColorAttachment, ImageUse::ColorAttachment) => true,
        (ImageUse::DepthAttachmentFirstUse, ImageUse::DepthAttachment) => true,
        (ImageUse::DepthAttachment, ImageUse::DepthAttachment) => true,
        (ImageUse::RenderColorFirstUse, ImageUse::ColorAttachment) => true,
        (ImageUse::RenderDepthFirstUse, ImageUse::DepthAttachment) => true,
        (ImageUse::ColorAttachment, ImageUse::SampledInPass) => true,
        (ImageUse::DepthAttachment, ImageUse::SampledInPass) => true,
        _ => false,
    }
}

/// The barrier table: the masks for each pass-boundary pair.
pub open spec fn spec_pass_boundary(from: ImageUse, to: ImageUse) -> BarrierMasks {
    match (from, to) {
        (ImageUse::ColorAttachmentFirstUse, _) => BarrierMasks {
            src_stage: STAGE_NONE,
            src_access: ACCESS_NONE,
            dst_stage: STAGE_COLOR_ATTACHMENT_OUTPUT,
            dst_access: ACCESS_COLOR_ATTACHMENT_WRITE,
            old_layout: ImageLayout::Undefined,
            new_layout: ImageLayout::ColorAttachmentOptimal,
        },
        (ImageUse::ColorAttachment, ImageUse::SampledInPass) => BarrierMasks {
            src_stage: STAGE_COLOR_ATTACHMENT_OUTPUT,
            src_access: ACCESS_COLOR_ATTACHMENT_WRITE,
            dst_stage: STAGE_FRAGMENT_SHADER,
            dst_access: ACCESS_SHADER_SAMPLED_READ,
            old_layout: ImageLayout::ColorAttachmentOptimal,
            new_layout: ImageLayout::ShaderReadOnlyOptimal,
        },
        (ImageUse::ColorAttachment, _) => BarrierMasks {
            src_stage: STAGE_COLOR_ATTACHMENT_OUTPUT,
            src_access: ACCESS_COLOR_ATTACHMENT_WRITE,
            dst_stage: STAGE_COLOR_ATTACHMENT_OUTPUT,
            dst_access: ACCESS_COLOR_READ_WRITE,
            old_layout: ImageLayout::ColorAttachmentOptimal,
            new_layout: ImageLayout::ColorAttachmentOptimal,
        },
        (ImageUse::DepthAttachmentFirstUse, _) => BarrierMasks {
            src_stage: STAGE_NONE,
            src_access: ACCESS_NONE,
            dst_stage: STAGES_FRAGMENT_TESTS,
            dst_access: ACCESS_DEPTH_READ_WRITE,
            old_layout: ImageLayout::Undefined,
            new_layout: ImageLayout::DepthStencilAttachmentOptimal,
        },
        (ImageUse::DepthAttachment, ImageUse::SampledInPass) => BarrierMasks {
            src_stage: STAGES_FRAGMENT_TESTS,
            src_access: ACCESS_DEPTH_STENCIL_ATTACHMENT_WRITE,
            dst_stage: STAGE_FRAGMENT_SHADER,
            dst_access: ACCESS_SHADER_SAMPLED_READ,
            old_layout: ImageLayout::DepthStencilAttachmentOptimal,
            new_layout: ImageLayout::ShaderReadOnlyOptimal,
        },
        (ImageUse::DepthAttachment, _) => BarrierMasks {
            src_stage: STAGES_FRAGMENT_TESTS,
            src_access: ACCESS_DEPTH_STENCIL_ATTACHMENT_WRITE,
            dst_stage: STAGES_FRAGMENT_TESTS,
            dst_access: ACCESS_DEPTH_READ_WRITE,
            old_layout: ImageLayout::DepthStencilAttachmentOptimal,
            new_layout: ImageLayout::DepthStencilAttachmentOptimal,
        },
        (ImageUse::RenderColorFirstUse, _) => BarrierMasks {
            src_stage: STAGE_COLOR_ATTACHMENT_OUTPUT | STAGE_FRAGMENT_SHADER,
            src_access: ACCESS_COLOR_ATTACHMENT_WRITE,
            dst_stage: STAGE_COLOR_ATTACHMENT_OUTPUT,
            dst_access: ACCESS_COLOR_ATTACHMENT_WRITE,
            old_layout: ImageLayout::Undefined,
            new_layout: ImageLayout::ColorAttachmentOptimal,
        },
        (_, _) => BarrierMasks {
            src_stage: STAGES_FRAGMENT_TESTS | STAGE_FRAGMENT_SHADER,
            src_access: ACCESS_DEPTH_STENCIL_ATTACHMENT_WRITE,
            dst_stage: STAGES_FRAGMENT_TESTS,
            dst_access: ACCESS_DEPTH_READ_WRITE,
            old_layout: ImageLayout::Undefined,
            new_layout: ImageLayout::DepthStencilAttachmentOptimal,
        },
    }
}

/// Whether some pass boundary moves an attachment `from` → `to`.
/// Moving *to* a first use, crossing kinds, or leaving a sampled state
/// is never produced by a frame the contract accepted.
pub fn is_pass_boundary(from: ImageUse, to: ImageUse) -> (r: bool)
    ensures
        r == spec_is_pass_boundary(from, to),
{
    match (from, to) {
        (ImageUse::ColorAttachmentFirstUse, ImageUse::ColorAttachment) => true,
        (ImageUse::ColorAttachment, ImageUse::ColorAttachment) => true,
        (ImageUse::DepthAttachmentFirstUse, ImageUse::DepthAttachment) => true,
        (ImageUse::DepthAttachment, ImageUse::DepthAttachment) => true,
        (ImageUse::RenderColorFirstUse, ImageUse::ColorAttachment) => true,
        (ImageUse::RenderDepthFirstUse, ImageUse::DepthAttachment) => true,
        (ImageUse::ColorAttachment, ImageUse::SampledInPass) => true,
        (ImageUse::DepthAttachment, ImageUse::SampledInPass) => true,
        _ => false,
    }
}

/// The pass-boundary barrier for an attachment moving `from` → `to`.
pub fn pass_boundary(from: ImageUse, to: ImageUse) -> (masks: BarrierMasks)
    requires
        spec_is_pass_boundary(from, to),
    ensures
        masks == spec_pass_boundary(from, to),
{
    match (from, to) {
        (ImageUse::ColorAttachmentFirstUse, _) => BarrierMasks {
            src_stage: STAGE_NONE,
            src_access: ACCESS_NONE,
            dst_stage: STAGE_COLOR_ATTACHMENT_OUTPUT,
            dst_access: ACCESS_COLOR_ATTACHMENT_WRITE,
            old_layout: ImageLayout::Undefined,
            new_layout: ImageLayout::ColorAttachmentOptimal,
        },
        (ImageUse::ColorAttachment, ImageUse::SampledInPass) => BarrierMasks {
            src_stage: STAGE_COLOR_ATTACHMENT_OUTPUT,
            src_access: ACCESS_COLOR_ATTACHMENT_WRITE,
            dst_stage: STAGE_FRAGMENT_SHADER,
            dst_access: ACCESS_SHADER_SAMPLED_READ,
            old_layout: ImageLayout::ColorAttachmentOptimal,
            new_layout: ImageLayout::ShaderReadOnlyOptimal,
        },
        (ImageUse::ColorAttachment, _) => BarrierMasks {
            src_stage: STAGE_COLOR_ATTACHMENT_OUTPUT,
            src_access: ACCESS_COLOR_ATTACHMENT_WRITE,
            dst_stage: STAGE_COLOR_ATTACHMENT_OUTPUT,
            dst_access: ACCESS_COLOR_READ_WRITE,
            old_layout: ImageLayout::ColorAttachmentOptimal,
            new_layout: ImageLayout::ColorAttachmentOptimal,
        },
        (ImageUse::DepthAttachmentFirstUse, _) => BarrierMasks {
            src_stage: STAGE_NONE,
            src_access: ACCESS_NONE,
            dst_stage: STAGES_FRAGMENT_TESTS,
            dst_access: ACCESS_DEPTH_READ_WRITE,
            old_layout: ImageLayout::Undefined,
            new_layout: ImageLayout::DepthStencilAttachmentOptimal,
        },
        (ImageUse::DepthAttachment, ImageUse::SampledInPass) => BarrierMasks {
            src_stage: STAGES_FRAGMENT_TESTS,
            src_access: ACCESS_DEPTH_STENCIL_ATTACHMENT_WRITE,
            dst_stage: STAGE_FRAGMENT_SHADER,
            dst_access: ACCESS_SHADER_SAMPLED_READ,
            old_layout: ImageLayout::DepthStencilAttachmentOptimal,
            new_layout: ImageLayout::ShaderReadOnlyOptimal,
        },
        (ImageUse::DepthAttachment, _) => BarrierMasks {
            src_stage: STAGES_FRAGMENT_TESTS,
            src_access: ACCESS_DEPTH_STENCIL_ATTACHMENT_WRITE,
            dst_stage: STAGES_FRAGMENT_TESTS,
            dst_access: ACCESS_DEPTH_READ_WRITE,
            old_layout: ImageLayout::DepthStencilAttachmentOptimal,
            new_layout: ImageLayout::DepthStencilAttachmentOptimal,
        },
        (ImageUse::RenderColorFirstUse, _) => BarrierMasks {
            src_stage: STAGE_COLOR_ATTACHMENT_OUTPUT | STAGE_FRAGMENT_SHADER,
            src_access: ACCESS_COLOR_ATTACHMENT_WRITE,
            dst_stage: STAGE_COLOR_ATTACHMENT_OUTPUT,
            dst_access: ACCESS_COLOR_ATTACHMENT_WRITE,
            old_layout: ImageLayout::Undefined,
            new_layout: ImageLayout::ColorAttachmentOptimal,
        },
        (_, _) => BarrierMasks {
            src_stage: STAGES_FRAGMENT_TESTS | STAGE_FRAGMENT_SHADER,
            src_access: ACCESS_DEPTH_STENCIL_ATTACHMENT_WRITE,
            dst_stage: STAGES_FRAGMENT_TESTS,
            dst_access: ACCESS_DEPTH_READ_WRITE,
            old_layout: ImageLayout::Undefined,
            new_layout: ImageLayout::DepthStencilAttachmentOptimal,
        },
    }
}

/// The window target's first-use barrier: its source stage is the one
/// the acquire semaphore's wait is scoped to, which chains the layout
/// transition after the presentation engine's reads.
pub fn acquire_chained_color_first_use() -> (masks: BarrierMasks)
    ensures
        masks == (BarrierMasks {
            src_stage: STAGE_COLOR_ATTACHMENT_OUTPUT,
            src_access: ACCESS_NONE,
            dst_stage: STAGE_COLOR_ATTACHMENT_OUTPUT,
            dst_access: ACCESS_COLOR_ATTACHMENT_WRITE,
            old_layout: ImageLayout::Undefined,
            new_layout: ImageLayout::ColorAttachmentOptimal,
        }),
{
    BarrierMasks {
        src_stage: STAGE_COLOR_ATTACHMENT_OUTPUT,
        src_access: ACCESS_NONE,
        dst_stage: STAGE_COLOR_ATTACHMENT_OUTPUT,
        dst_access: ACCESS_COLOR_ATTACHMENT_WRITE,
        old_layout: ImageLayout::Undefined,
        new_layout: ImageLayout::ColorAttachmentOptimal,
    }
}

/// The window target's terminal transition to presentation: the signal
/// semaphore orders presentation, so there is no destination stage.
pub fn terminal_present() -> (masks: BarrierMasks)
    ensures
        masks == (BarrierMasks {
            src_stage: STAGE_COLOR_ATTACHMENT_OUTPUT,
            src_access: ACCESS_COLOR_ATTACHMENT_WRITE,
            dst_stage: STAGE_NONE,
            dst_access: ACCESS_NONE,
            old_layout: ImageLayout::ColorAttachmentOptimal,
            new_layout: ImageLayout::PresentSrc,
        }),
{
    BarrierMasks {
        src_stage: STAGE_COLOR_ATTACHMENT_OUTPUT,
        src_access: ACCESS_COLOR_ATTACHMENT_WRITE,
        dst_stage: STAGE_NONE,
        dst_access: ACCESS_NONE,
        old_layout: ImageLayout::ColorAttachmentOptimal,
        new_layout: ImageLayout::PresentSrc,
    }
}

/// The offscreen target's terminal transition to its readback copy.
pub fn terminal_transfer_src() -> (masks: BarrierMasks)
    ensures
        masks == (BarrierMasks {
            src_stage: STAGE_COLOR_ATTACHMENT_OUTPUT,
            src_access: ACCESS_COLOR_ATTACHMENT_WRITE,
            dst_stage: STAGE_TRANSFER,
            dst_access: ACCESS_TRANSFER_READ,
            old_layout: ImageLayout::ColorAttachmentOptimal,
            new_layout: ImageLayout::TransferSrcOptimal,
        }),
{
    BarrierMasks {
        src_stage: STAGE_COLOR_ATTACHMENT_OUTPUT,
        src_access: ACCESS_COLOR_ATTACHMENT_WRITE,
        dst_stage: STAGE_TRANSFER,
        dst_access: ACCESS_TRANSFER_READ,
        old_layout: ImageLayout::ColorAttachmentOptimal,
        new_layout: ImageLayout::TransferSrcOptimal,
    }
}

/// The masks of the offscreen host-readback *buffer* barrier, with
/// undefined layouts standing for "no layout".
pub fn host_readback() -> (masks: BarrierMasks)
    ensures
        masks == (BarrierMasks {
            src_stage: STAGE_TRANSFER,
            src_access: ACCESS_TRANSFER_WRITE,
            dst_stage: STAGE_HOST,
            dst_access: ACCESS_HOST_READ,
            old_layout: ImageLayout::Undefined,
            new_layout: ImageLayout::Undefined,
        }),
{
    BarrierMasks {
        src_stage: STAGE_TRANSFER,
        src_access: ACCESS_TRANSFER_WRITE,
        dst_stage: STAGE_HOST,
        dst_access: ACCESS_HOST_READ,
        old_layout: ImageLayout::Undefined,
        new_layout: ImageLayout::Undefined,
    }
}

/// Every pass-boundary barrier leaves the image in the layout the next
/// use expects: a colour attachment in the colour layout, a depth
/// attachment in the depth layout, a sampled image in the shader-read
/// layout.
pub proof fn lemma_boundary_lands_in_the_next_use(from: ImageUse, to: ImageUse)
    requires
        spec_is_pass_boundary(from, to),
    ensures
        to == ImageUse::ColorAttachment ==> spec_pass_boundary(from, to).new_layout == ImageLayout::ColorAttachmentOptimal,
        to == ImageUse::DepthAttachment ==> spec_pass_boundary(from, to).new_layout == ImageLayout::DepthStencilAttachmentOptimal,
        to == ImageUse::SampledInPass ==> spec_pass_boundary(from, to).new_layout == ImageLayout::ShaderReadOnlyOptimal,
{
}

/// A first use discards: every barrier out of a first-use state starts
/// from the undefined layout, and every other boundary starts from the
/// layout the previous use left.
pub proof fn lemma_first_uses_start_undefined(from: ImageUse, to: ImageUse)
    requires
        spec_is_pass_boundary(from, to),
    ensures
        (from == ImageUse::ColorAttachmentFirstUse || from == ImageUse::DepthAttachmentFirstUse
            || from == ImageUse::RenderColorFirstUse || from == ImageUse::RenderDepthFirstUse)
            <==> spec_pass_boundary(from, to).old_layout == ImageLayout::Undefined,
        from == ImageUse::ColorAttachment ==> spec_pass_boundary(from, to).old_layout == ImageLayout::ColorAttachmentOptimal,
        from == ImageUse::DepthAttachment ==> spec_pass_boundary(from, to).old_layout == ImageLayout::DepthStencilAttachmentOptimal,
{
}

} // verus!
