use ash::vk;
use renew_rhi::formats::{FEATURE_COLOR_ATTACHMENT, FEATURE_SAMPLED_IMAGE, MEMORY_DEVICE_LOCAL, MEMORY_HOST_COHERENT, MEMORY_HOST_VISIBLE};
use renew_rhi::memory::{image_memory_type, pick_memory_type, MemoryProperties};
use renew_rhi::offscreen::{check_extent, readback_len, OffscreenState, WEDGED};
use renew_rhi::render_image::{self, check_format_features, render_image_plan, RenderImageDesc, RenderImageKind};
use renew_rhi::texture::{check_desc, no_memory_type, required_bytes, TextureDesc};
use renew_rhi::device::PoisonFlag;
use renew_rhi::{Extent, TargetError};

fn table(types: &[u32]) -> MemoryProperties {
    let mut memory_types = [0u32; 32];
    for (slot, flags) in memory_types.iter_mut().zip(types) {
        *slot = *flags;
    }
    MemoryProperties { memory_type_count: u32::try_from(types.len()).expect("a plausible type count"), memory_types }
}

const DEVICE_LOCAL: u32 = MEMORY_DEVICE_LOCAL;
const HOST: u32 = MEMORY_HOST_VISIBLE | MEMORY_HOST_COHERENT;

#[test]
fn an_extent_past_the_device_limit_is_refused_by_name() {
    for extent in [
        Extent { width: 65, height: 8 },
        Extent { width: 8, height: 65 },
        Extent { width: 65, height: 65 },
    ] {
        let refusal = check_extent(extent, 64).expect_err("past the limit is not a target");
        assert!(
            matches!(refusal, TargetError::Creation { call, code: 0 }
                if call == "create_offscreen_target(extent exceeds the device limit)"),
            "{extent:?} refused as {refusal:?}, which names no cause"
        );
    }
    assert!(check_extent(Extent { width: 64, height: 64 }, 64).is_ok(), "the limit itself is allowed");
}

#[test]
fn a_zero_extent_is_refused_in_either_dimension() {
    for extent in [
        Extent { width: 0, height: 8 },
        Extent { width: 8, height: 0 },
        Extent { width: 0, height: 0 },
    ] {
        let refusal = check_extent(extent, u32::MAX).expect_err("a zero extent has no target");
        assert!(
            matches!(refusal, TargetError::Creation { call, code: 0 }
                if call == "create_offscreen_target(zero extent)"),
            "{extent:?} refused as {refusal:?}, which names no cause"
        );
    }
    assert!(check_extent(Extent { width: 1, height: 1 }, u32::MAX).is_ok(), "one pixel is a real target");
}

#[test]
fn the_render_image_prefers_device_local_memory() {
    let properties = table(&[HOST, DEVICE_LOCAL]);
    assert_eq!(image_memory_type(&properties, 0b11), Some(1), "both types allowed: the device-local one wins");
}

#[test]
fn the_render_image_falls_back_when_no_device_local_type_is_allowed() {
    let properties = table(&[HOST, DEVICE_LOCAL]);
    assert_eq!(
        image_memory_type(&properties, 0b01),
        Some(0),
        "the image excludes the device-local type: take what it allows"
    );
}

#[test]
fn a_memory_type_nothing_satisfies_is_reported_not_guessed() {
    let properties = table(&[DEVICE_LOCAL]);
    assert_eq!(image_memory_type(&properties, 0), None, "an image allowing no type at all has nowhere to live");
    assert_eq!(
        pick_memory_type(&properties, 0b1, HOST),
        None,
        "the readback buffer needs host-visible memory, not any memory"
    );
}

#[test]
fn a_partial_flag_match_is_not_a_match() {
    let properties = table(&[MEMORY_HOST_VISIBLE]);
    assert_eq!(
        pick_memory_type(&properties, 0b1, HOST),
        None,
        "host-visible alone does not satisfy host-visible AND coherent"
    );
    assert_eq!(pick_memory_type(&properties, 0b1, MEMORY_HOST_VISIBLE), Some(0), "the same type satisfies the weaker request");
}

#[test]
fn type_bits_are_matched_per_index_not_in_bulk() {
    let properties = table(&[DEVICE_LOCAL, DEVICE_LOCAL, DEVICE_LOCAL]);
    assert_eq!(pick_memory_type(&properties, 0b100, DEVICE_LOCAL), Some(2));
    assert_eq!(pick_memory_type(&properties, 0b1000, DEVICE_LOCAL), None);
}

#[test]
fn the_memory_flags_are_the_vulkan_bits() {
    assert_eq!(MEMORY_DEVICE_LOCAL, vk::MemoryPropertyFlags::DEVICE_LOCAL.as_raw());
    assert_eq!(MEMORY_HOST_VISIBLE, vk::MemoryPropertyFlags::HOST_VISIBLE.as_raw());
    assert_eq!(MEMORY_HOST_COHERENT, vk::MemoryPropertyFlags::HOST_COHERENT.as_raw());
}

#[test]
fn a_reported_count_past_the_table_is_clamped() {
    let mut properties = table(&[HOST; 32]);
    properties.memory_type_count = 40;
    assert_eq!(pick_memory_type(&properties, 1 << 31, HOST), Some(31));
    assert_eq!(pick_memory_type(&properties, 0, HOST), None);
}

#[test]
fn the_readback_is_four_bytes_a_pixel() {
    assert_eq!(readback_len(Extent { width: 64, height: 32 }), 64 * 32 * 4);
    assert_eq!(readback_len(Extent { width: 0, height: 32 }), 0);
}

#[test]
fn a_wedged_target_refuses_frames_and_readback() {
    let mut state = OffscreenState::new();
    let mut poison = PoisonFlag::new();
    assert!(state.render_guard(false).is_ok());
    assert!(matches!(state.render_guard(true), Err(TargetError::DeviceLost)));
    assert!(state.readback_allowed(16, 16));
    assert!(!state.readback_allowed(15, 16), "a short buffer is refused");
    assert_eq!(state.readback_copy_len(16, 16), 16, "an allowed readback copies the whole image");

    let error = state.wait_failed(&mut poison, vk::Result::TIMEOUT.as_raw());
    assert_eq!(error, TargetError::Timeout { call: "vkWaitForFences" });
    assert!(!poison.poisoned(), "a timeout is not a loss");
    assert!(state.wedged());
    assert_eq!(state.render_guard(false), Err(TargetError::Timeout { call: WEDGED }));
    assert_eq!(state.render_guard(true), Err(TargetError::Timeout { call: WEDGED }), "wedged is reported first");
    assert!(!state.readback_allowed(16, 16));
}

#[test]
fn a_lost_device_during_the_wait_wedges_and_poisons() {
    let mut state = OffscreenState::new();
    let mut poison = PoisonFlag::new();
    let error = state.wait_failed(&mut poison, vk::Result::ERROR_DEVICE_LOST.as_raw());
    assert_eq!(error, TargetError::DeviceLost);
    assert!(poison.poisoned());
    assert!(state.wedged());

    let mut other = OffscreenState::new();
    let error = other.wait_failed(&mut poison, vk::Result::ERROR_OUT_OF_DEVICE_MEMORY.as_raw());
    assert_eq!(error, TargetError::OutOfDeviceMemory { call: "vkWaitForFences" });
    let error = other.reset_failed(vk::Result::ERROR_OUT_OF_HOST_MEMORY.as_raw());
    assert_eq!(error, TargetError::Creation { call: "vkResetFences", code: -1 });
}

#[test]
fn malformed_extents_are_refused_by_name() {
    let refusal = render_image::check_extent(Extent { width: 0, height: 4 }, 4096);
    assert!(matches!(refusal, Err(TargetError::Creation { call: "create_render_image(zero extent)", .. })));
    let refusal = render_image::check_extent(Extent { width: 4, height: 8192 }, 4096);
    assert!(matches!(
        refusal,
        Err(TargetError::Creation { call: "create_render_image(extent exceeds the device limit)", .. })
    ));
    assert!(render_image::check_extent(Extent { width: 4, height: 4 }, 4096).is_ok());
}

#[test]
fn a_render_image_plan_follows_its_kind() {
    let color = render_image_plan(RenderImageKind::Color, None).expect("colour needs no depth format");
    assert_eq!(color.format, vk::Format::R8G8B8A8_UNORM.as_raw());
    assert!(!color.depth);
    assert_eq!(color.needed_features, FEATURE_SAMPLED_IMAGE | FEATURE_COLOR_ATTACHMENT);

    let depth = render_image_plan(RenderImageKind::Depth, Some(vk::Format::D32_SFLOAT.as_raw())).expect("a depth format exists");
    assert_eq!(depth.format, vk::Format::D32_SFLOAT.as_raw());
    assert!(depth.depth);
    assert_eq!(
        depth.needed_features,
        (vk::FormatFeatureFlags::SAMPLED_IMAGE | vk::FormatFeatureFlags::DEPTH_STENCIL_ATTACHMENT).as_raw()
    );

    assert!(matches!(
        render_image_plan(RenderImageKind::Depth, None),
        Err(TargetError::DepthUnsupported { chain: "D32_SFLOAT, D24_UNORM_S8_UINT" })
    ));

    assert!(check_format_features(color, color.needed_features | 0x4000).is_ok());
    assert!(matches!(
        check_format_features(color, FEATURE_SAMPLED_IMAGE),
        Err(TargetError::Creation { call: "create_render_image(the adapter cannot sample this format)", code: 0 })
    ));

    let desc = RenderImageDesc::new(RenderImageKind::Color, Extent { width: 8, height: 8 });
    assert!(!desc.kept);
    let kept = desc.kept();
    assert!(kept.kept);
    assert_eq!(kept.extent, desc.extent);
    assert_eq!(kept.kind, RenderImageKind::Color);
}

#[test]
fn a_texture_past_the_device_limit_is_refused_by_name() {
    let pixels = [0u8; 16];
    let refusal = check_desc(&TextureDesc::new(Extent { width: 65, height: 2 }, &pixels), 64)
        .expect_err("past the limit is not a texture");
    assert!(
        matches!(refusal, TargetError::Creation { call, code: 0 }
            if call == "create_texture(extent exceeds the device limit)"),
        "refused as {refusal:?}, which names no cause"
    );
    let refusal = check_desc(&TextureDesc::new(Extent { width: 65, height: 65 }, &pixels), 64)
        .expect_err("past the limit is not a texture");
    assert!(
        matches!(refusal, TargetError::Creation { call, .. }
            if call == "create_texture(extent exceeds the device limit)"),
        "the extent rule must be reported before the length rule: {refusal:?}"
    );
    assert!(
        check_desc(&TextureDesc::new(Extent { width: 2, height: 2 }, &pixels), 2).is_ok(),
        "the limit itself is allowed"
    );
}

#[test]
fn the_required_byte_count_is_checked_arithmetic() {
    assert_eq!(required_bytes(Extent { width: 3, height: 5 }), Some(60));
    assert_eq!(
        required_bytes(Extent { width: u32::MAX, height: u32::MAX }),
        None,
        "u32::MAX squared then quadrupled exceeds u64 and must not wrap"
    );
}

#[test]
fn every_malformed_descriptor_is_rejected_by_name() {
    let good = Extent { width: 2, height: 2 };
    let pixels = [0u8; 16];
    assert!(matches!(
        check_desc(&TextureDesc::new(Extent { width: 0, height: 2 }, &pixels), u32::MAX),
        Err(TargetError::Creation { call: "create_texture(zero extent)", .. })
    ));
    assert!(matches!(
        check_desc(&TextureDesc::new(Extent { width: 2, height: 0 }, &pixels), u32::MAX),
        Err(TargetError::Creation { call: "create_texture(zero extent)", .. })
    ));
    assert!(matches!(
        check_desc(&TextureDesc::new(Extent { width: u32::MAX, height: u32::MAX }, &pixels), u32::MAX),
        Err(TargetError::Creation { call: "create_texture(extent overflows)", .. })
    ));
    assert!(matches!(
        check_desc(&TextureDesc::new(good, &pixels[..15]), u32::MAX),
        Err(TargetError::Creation { call: "create_texture(pixel length)", .. })
    ));
    assert!(matches!(check_desc(&TextureDesc::new(good, &pixels), u32::MAX), Ok(16)));
}

#[test]
fn a_missing_memory_type_names_the_call() {
    assert_eq!(
        no_memory_type("create_texture(no memory type)"),
        TargetError::Creation { call: "create_texture(no memory type)", code: 0 }
    );
}
