use ash::vk;
use renew_rhi::transition::{
    acquire_chained_color_first_use, host_readback, is_pass_boundary, pass_boundary, terminal_present,
    terminal_transfer_src, BarrierMasks, ImageLayout, ImageUse,
};

fn layout(l: ImageLayout) -> vk::ImageLayout {
    vk::ImageLayout::from_raw(l.code())
}

fn src_stage(m: &BarrierMasks) -> vk::PipelineStageFlags2 {
    vk::PipelineStageFlags2::from_raw(m.src_stage)
}

fn dst_stage(m: &BarrierMasks) -> vk::PipelineStageFlags2 {
    vk::PipelineStageFlags2::from_raw(m.dst_stage)
}

fn src_access(m: &BarrierMasks) -> vk::AccessFlags2 {
    vk::AccessFlags2::from_raw(m.src_access)
}

fn dst_access(m: &BarrierMasks) -> vk::AccessFlags2 {
    vk::AccessFlags2::from_raw(m.dst_access)
}

#[test]
fn the_pass_boundary_table_is_pinned_field_by_field() {
    let first_color = pass_boundary(ImageUse::ColorAttachmentFirstUse, ImageUse::ColorAttachment);
    assert_eq!(src_stage(&first_color), vk::PipelineStageFlags2::NONE);
    assert_eq!(src_access(&first_color), vk::AccessFlags2::NONE);
    assert_eq!(dst_stage(&first_color), vk::PipelineStageFlags2::COLOR_ATTACHMENT_OUTPUT);
    assert_eq!(dst_access(&first_color), vk::AccessFlags2::COLOR_ATTACHMENT_WRITE);
    assert_eq!(layout(first_color.old_layout), vk::ImageLayout::UNDEFINED);
    assert_eq!(layout(first_color.new_layout), vk::ImageLayout::COLOR_ATTACHMENT_OPTIMAL);

    let between_color = pass_boundary(ImageUse::ColorAttachment, ImageUse::ColorAttachment);
    assert_eq!(src_stage(&between_color), vk::PipelineStageFlags2::COLOR_ATTACHMENT_OUTPUT);
    assert_eq!(src_access(&between_color), vk::AccessFlags2::COLOR_ATTACHMENT_WRITE);
    assert_eq!(dst_stage(&between_color), vk::PipelineStageFlags2::COLOR_ATTACHMENT_OUTPUT);
    assert_eq!(
        dst_access(&between_color),
        vk::AccessFlags2::COLOR_ATTACHMENT_READ | vk::AccessFlags2::COLOR_ATTACHMENT_WRITE
    );
    assert_eq!(layout(between_color.old_layout), vk::ImageLayout::COLOR_ATTACHMENT_OPTIMAL);
    assert_eq!(layout(between_color.new_layout), vk::ImageLayout::COLOR_ATTACHMENT_OPTIMAL);

    let tests_stages = vk::PipelineStageFlags2::EARLY_FRAGMENT_TESTS | vk::PipelineStageFlags2::LATE_FRAGMENT_TESTS;
    let depth_rw = vk::AccessFlags2::DEPTH_STENCIL_ATTACHMENT_READ | vk::AccessFlags2::DEPTH_STENCIL_ATTACHMENT_WRITE;

    let first_depth = pass_boundary(ImageUse::DepthAttachmentFirstUse, ImageUse::DepthAttachment);
    assert_eq!(src_stage(&first_depth), vk::PipelineStageFlags2::NONE);
    assert_eq!(src_access(&first_depth), vk::AccessFlags2::NONE);
    assert_eq!(dst_stage(&first_depth), tests_stages);
    assert_eq!(dst_access(&first_depth), depth_rw);
    assert_eq!(layout(first_depth.old_layout), vk::ImageLayout::UNDEFINED);
    assert_eq!(layout(first_depth.new_layout), vk::ImageLayout::DEPTH_STENCIL_ATTACHMENT_OPTIMAL);

    let between_depth = pass_boundary(ImageUse::DepthAttachment, ImageUse::DepthAttachment);
    assert_eq!(src_stage(&between_depth), tests_stages);
    assert_eq!(src_access(&between_depth), vk::AccessFlags2::DEPTH_STENCIL_ATTACHMENT_WRITE);
    assert_eq!(dst_stage(&between_depth), tests_stages);
    assert_eq!(dst_access(&between_depth), depth_rw);
    assert_eq!(layout(between_depth.old_layout), vk::ImageLayout::DEPTH_STENCIL_ATTACHMENT_OPTIMAL);
    assert_eq!(layout(between_depth.new_layout), vk::ImageLayout::DEPTH_STENCIL_ATTACHMENT_OPTIMAL);
}

#[test]
fn the_render_image_arms_are_pinned_field_by_field() {
    let tests_stages = vk::PipelineStageFlags2::EARLY_FRAGMENT_TESTS | vk::PipelineStageFlags2::LATE_FRAGMENT_TESTS;
    let depth_rw = vk::AccessFlags2::DEPTH_STENCIL_ATTACHMENT_READ | vk::AccessFlags2::DEPTH_STENCIL_ATTACHMENT_WRITE;

    let render_color = pass_boundary(ImageUse::RenderColorFirstUse, ImageUse::ColorAttachment);
    assert_eq!(
        src_stage(&render_color),
        vk::PipelineStageFlags2::COLOR_ATTACHMENT_OUTPUT | vk::PipelineStageFlags2::FRAGMENT_SHADER
    );
    assert_eq!(src_access(&render_color), vk::AccessFlags2::COLOR_ATTACHMENT_WRITE);
    assert_eq!(dst_stage(&render_color), vk::PipelineStageFlags2::COLOR_ATTACHMENT_OUTPUT);
    assert_eq!(dst_access(&render_color), vk::AccessFlags2::COLOR_ATTACHMENT_WRITE);
    assert_eq!(layout(render_color.old_layout), vk::ImageLayout::UNDEFINED);
    assert_eq!(layout(render_color.new_layout), vk::ImageLayout::COLOR_ATTACHMENT_OPTIMAL);

    let render_depth = pass_boundary(ImageUse::RenderDepthFirstUse, ImageUse::DepthAttachment);
    assert_eq!(src_stage(&render_depth), tests_stages | vk::PipelineStageFlags2::FRAGMENT_SHADER);
    assert_eq!(src_access(&render_depth), vk::AccessFlags2::DEPTH_STENCIL_ATTACHMENT_WRITE);
    assert_eq!(dst_stage(&render_depth), tests_stages);
    assert_eq!(dst_access(&render_depth), depth_rw);
    assert_eq!(layout(render_depth.old_layout), vk::ImageLayout::UNDEFINED);
    assert_eq!(layout(render_depth.new_layout), vk::ImageLayout::DEPTH_STENCIL_ATTACHMENT_OPTIMAL);

    let color_sampled = pass_boundary(ImageUse::ColorAttachment, ImageUse::SampledInPass);
    assert_eq!(src_stage(&color_sampled), vk::PipelineStageFlags2::COLOR_ATTACHMENT_OUTPUT);
    assert_eq!(src_access(&color_sampled), vk::AccessFlags2::COLOR_ATTACHMENT_WRITE);
    assert_eq!(dst_stage(&color_sampled), vk::PipelineStageFlags2::FRAGMENT_SHADER);
    assert_eq!(dst_access(&color_sampled), vk::AccessFlags2::SHADER_SAMPLED_READ);
    assert_eq!(layout(color_sampled.old_layout), vk::ImageLayout::COLOR_ATTACHMENT_OPTIMAL);
    assert_eq!(layout(color_sampled.new_layout), vk::ImageLayout::SHADER_READ_ONLY_OPTIMAL);

    let depth_sampled = pass_boundary(ImageUse::DepthAttachment, ImageUse::SampledInPass);
    assert_eq!(src_stage(&depth_sampled), tests_stages);
    assert_eq!(src_access(&depth_sampled), vk::AccessFlags2::DEPTH_STENCIL_ATTACHMENT_WRITE);
    assert_eq!(dst_stage(&depth_sampled), vk::PipelineStageFlags2::FRAGMENT_SHADER);
    assert_eq!(dst_access(&depth_sampled), vk::AccessFlags2::SHADER_SAMPLED_READ);
    assert_eq!(layout(depth_sampled.old_layout), vk::ImageLayout::DEPTH_STENCIL_ATTACHMENT_OPTIMAL);
    assert_eq!(layout(depth_sampled.new_layout), vk::ImageLayout::SHADER_READ_ONLY_OPTIMAL);
}

#[test]
fn the_excluded_sites_keep_their_exact_mask_literals() {
    let acquire = acquire_chained_color_first_use();
    assert_eq!(
        src_stage(&acquire),
        vk::PipelineStageFlags2::COLOR_ATTACHMENT_OUTPUT,
        "the semaphore-chaining source stage is the reason this site is outside the core"
    );
    assert_eq!(src_access(&acquire), vk::AccessFlags2::NONE);
    assert_eq!(dst_stage(&acquire), vk::PipelineStageFlags2::COLOR_ATTACHMENT_OUTPUT);
    assert_eq!(dst_access(&acquire), vk::AccessFlags2::COLOR_ATTACHMENT_WRITE);
    assert_eq!(layout(acquire.old_layout), vk::ImageLayout::UNDEFINED);
    assert_eq!(layout(acquire.new_layout), vk::ImageLayout::COLOR_ATTACHMENT_OPTIMAL);

    let present = terminal_present();
    assert_eq!(src_stage(&present), vk::PipelineStageFlags2::COLOR_ATTACHMENT_OUTPUT);
    assert_eq!(src_access(&present), vk::AccessFlags2::COLOR_ATTACHMENT_WRITE);
    assert_eq!(dst_stage(&present), vk::PipelineStageFlags2::NONE);
    assert_eq!(dst_access(&present), vk::AccessFlags2::NONE);
    assert_eq!(layout(present.old_layout), vk::ImageLayout::COLOR_ATTACHMENT_OPTIMAL);
    assert_eq!(layout(present.new_layout), vk::ImageLayout::PRESENT_SRC_KHR);

    let transfer = terminal_transfer_src();
    assert_eq!(src_stage(&transfer), vk::PipelineStageFlags2::COLOR_ATTACHMENT_OUTPUT);
    assert_eq!(src_access(&transfer), vk::AccessFlags2::COLOR_ATTACHMENT_WRITE);
    assert_eq!(dst_stage(&transfer), vk::PipelineStageFlags2::TRANSFER);
    assert_eq!(dst_access(&transfer), vk::AccessFlags2::TRANSFER_READ);
    assert_eq!(layout(transfer.old_layout), vk::ImageLayout::COLOR_ATTACHMENT_OPTIMAL);
    assert_eq!(layout(transfer.new_layout), vk::ImageLayout::TRANSFER_SRC_OPTIMAL);

    let host = host_readback();
    assert_eq!(src_stage(&host), vk::PipelineStageFlags2::TRANSFER);
    assert_eq!(src_access(&host), vk::AccessFlags2::TRANSFER_WRITE);
    assert_eq!(dst_stage(&host), vk::PipelineStageFlags2::HOST);
    assert_eq!(dst_access(&host), vk::AccessFlags2::HOST_READ);
}

#[test]
fn a_pair_no_pass_boundary_produces_is_refused() {
    assert!(
        !is_pass_boundary(ImageUse::ColorAttachment, ImageUse::DepthAttachment),
        "kind-crossing pairs are contract violations"
    );
    assert!(
        !is_pass_boundary(ImageUse::ColorAttachment, ImageUse::ColorAttachmentFirstUse),
        "moving to a first use is a contract violation"
    );
    assert!(
        !is_pass_boundary(ImageUse::SampledInPass, ImageUse::ColorAttachment),
        "re-targeting after sampling is a contract violation"
    );
    for (from, to) in [
        (ImageUse::ColorAttachmentFirstUse, ImageUse::ColorAttachment),
        (ImageUse::ColorAttachment, ImageUse::ColorAttachment),
        (ImageUse::DepthAttachmentFirstUse, ImageUse::DepthAttachment),
        (ImageUse::DepthAttachment, ImageUse::DepthAttachment),
        (ImageUse::RenderColorFirstUse, ImageUse::ColorAttachment),
        (ImageUse::RenderDepthFirstUse, ImageUse::DepthAttachment),
        (ImageUse::ColorAttachment, ImageUse::SampledInPass),
        (ImageUse::DepthAttachment, ImageUse::SampledInPass),
    ] {
        assert!(is_pass_boundary(from, to), "{from:?} -> {to:?} is in the table");
    }
}

#[test]
fn every_layout_code_is_the_vulkan_value() {
    assert_eq!(layout(ImageLayout::Undefined), vk::ImageLayout::UNDEFINED);
    assert_eq!(layout(ImageLayout::ColorAttachmentOptimal), vk::ImageLayout::COLOR_ATTACHMENT_OPTIMAL);
    assert_eq!(layout(ImageLayout::DepthStencilAttachmentOptimal), vk::ImageLayout::DEPTH_STENCIL_ATTACHMENT_OPTIMAL);
    assert_eq!(layout(ImageLayout::ShaderReadOnlyOptimal), vk::ImageLayout::SHADER_READ_ONLY_OPTIMAL);
    assert_eq!(layout(ImageLayout::TransferSrcOptimal), vk::ImageLayout::TRANSFER_SRC_OPTIMAL);
    assert_eq!(layout(ImageLayout::TransferDstOptimal), vk::ImageLayout::TRANSFER_DST_OPTIMAL);
    assert_eq!(layout(ImageLayout::PresentSrc), vk::ImageLayout::PRESENT_SRC_KHR);
}

#[test]
fn each_boundary_lands_in_the_layout_the_next_use_needs() {
    let color = pass_boundary(ImageUse::RenderColorFirstUse, ImageUse::ColorAttachment);
    let sampled = pass_boundary(ImageUse::ColorAttachment, ImageUse::SampledInPass);
    assert_eq!(color.new_layout, sampled.old_layout, "the sampling barrier starts where the render left");
    let depth = pass_boundary(ImageUse::RenderDepthFirstUse, ImageUse::DepthAttachment);
    let depth_sampled = pass_boundary(ImageUse::DepthAttachment, ImageUse::SampledInPass);
    assert_eq!(depth.new_layout, depth_sampled.old_layout);
}
