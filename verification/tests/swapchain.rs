use ash::vk;
use renew_rhi::device::PoisonFlag;
use renew_rhi::swapchain::{
    acquire_failure, check_image_index, choose_surface_format, depth_guard, fence_wait_error, from_vk_transform,
    plan_chain, present_outcome, ChainInfo, ChainPlan, FrameRing, PresentOutcome, SurfaceCaps, SurfaceFormat,
    EXTENT_UNDEFINED, FRAMES_IN_FLIGHT,
};
use renew_rhi::{Extent, SurfaceTransform, TargetError, TargetFormat};
use vk::SurfaceTransformFlagsKHR as Vk;

#[test]
fn every_reported_transform_maps_to_what_a_renderer_can_fold() {
    for (reported, expected) in [
        (Vk::IDENTITY, SurfaceTransform::Identity),
        (Vk::ROTATE_90, SurfaceTransform::Rotate90),
        (Vk::ROTATE_180, SurfaceTransform::Rotate180),
        (Vk::ROTATE_270, SurfaceTransform::Rotate270),
    ] {
        assert_eq!(from_vk_transform(reported.as_raw()), expected, "{reported:?}");
    }
    for unfoldable in [
        Vk::HORIZONTAL_MIRROR,
        Vk::HORIZONTAL_MIRROR_ROTATE_90,
        Vk::HORIZONTAL_MIRROR_ROTATE_180,
        Vk::HORIZONTAL_MIRROR_ROTATE_270,
        Vk::INHERIT,
    ] {
        assert_eq!(
            from_vk_transform(unfoldable.as_raw()),
            SurfaceTransform::Identity,
            "{unfoldable:?} is not foldable and must not be reported as a rotation"
        );
    }
}

const SRGB: vk::ColorSpaceKHR = vk::ColorSpaceKHR::SRGB_NONLINEAR;

fn offered(format: vk::Format, color_space: vk::ColorSpaceKHR) -> SurfaceFormat {
    SurfaceFormat { format: format.as_raw(), color_space: color_space.as_raw() }
}

#[test]
fn bgra_wins_when_a_surface_offers_both() {
    let formats = [offered(vk::Format::R8G8B8A8_SRGB, SRGB), offered(vk::Format::B8G8R8A8_SRGB, SRGB)];
    let (chosen, format) = choose_surface_format(&formats).expect("both are acceptable");
    assert_eq!(chosen.format, vk::Format::B8G8R8A8_SRGB.as_raw());
    assert_eq!(format, TargetFormat::Bgra8Srgb);
}

#[test]
fn rgba_is_taken_when_it_is_the_only_one_offered() {
    let formats = [offered(vk::Format::B8G8R8A8_UNORM, SRGB), offered(vk::Format::R8G8B8A8_SRGB, SRGB)];
    let (chosen, format) = choose_surface_format(&formats).expect("rgba is acceptable");
    assert_eq!(chosen.format, vk::Format::R8G8B8A8_SRGB.as_raw());
    assert_eq!(format, TargetFormat::Rgba8Srgb);
}

#[test]
fn a_surface_offering_no_srgb_format_is_refused() {
    let formats = [offered(vk::Format::B8G8R8A8_UNORM, SRGB), offered(vk::Format::R8G8B8A8_UNORM, SRGB)];
    assert!(choose_surface_format(&formats).is_none());
}

#[test]
fn the_colour_space_must_match_too() {
    let formats = [offered(vk::Format::B8G8R8A8_UNORM, vk::ColorSpaceKHR::DISPLAY_P3_NONLINEAR_EXT)];
    assert!(choose_surface_format(&formats).is_none(), "an 8-bit format in the wrong colour space is not acceptable");
    let formats = [offered(vk::Format::B8G8R8A8_SRGB, vk::ColorSpaceKHR::DISPLAY_P3_NONLINEAR_EXT)];
    assert!(choose_surface_format(&formats).is_none(), "the sRGB format in another space is not acceptable either");
}

#[test]
fn a_surface_offering_nothing_acceptable_is_refused() {
    assert!(choose_surface_format(&[]).is_none(), "no formats at all");
    let unusable = [offered(vk::Format::R5G6B5_UNORM_PACK16, SRGB)];
    assert!(choose_surface_format(&unusable).is_none(), "only formats the engine cannot present in");
}

fn caps(current: Extent) -> SurfaceCaps {
    SurfaceCaps {
        min_image_count: 2,
        max_image_count: 3,
        current_extent: current,
        min_image_extent: Extent { width: 1, height: 1 },
        max_image_extent: Extent { width: 4096, height: 4096 },
        supported_composite_alpha: vk::CompositeAlphaFlagsKHR::OPAQUE.as_raw(),
        current_transform: vk::SurfaceTransformFlagsKHR::IDENTITY.as_raw(),
    }
}

#[test]
fn the_surface_dictates_the_extent_when_it_reports_one() {
    let reported = caps(Extent { width: 800, height: 600 });
    let plan = plan_chain(reported, Extent { width: 1024, height: 768 }).expect("a renderable surface");
    assert_eq!(plan.extent, Extent { width: 800, height: 600 });
    assert_eq!(plan.image_count, 3, "min + 1");
    assert_eq!(plan.composite_alpha, vk::CompositeAlphaFlagsKHR::OPAQUE.as_raw());
    assert_eq!(plan.transform, SurfaceTransform::Identity);
}

#[test]
fn an_open_extent_is_clamped_to_the_surface_bounds() {
    let open = caps(Extent { width: EXTENT_UNDEFINED, height: EXTENT_UNDEFINED });
    let plan = plan_chain(open, Extent { width: 9000, height: 0 }).expect("clamped up from zero");
    assert_eq!(plan.extent, Extent { width: 4096, height: 1 });
    assert_eq!(EXTENT_UNDEFINED, u32::MAX);
}

#[test]
fn a_zero_surface_stays_dormant() {
    assert_eq!(plan_chain(caps(Extent { width: 0, height: 600 }), Extent { width: 800, height: 600 }), None);
    assert_eq!(plan_chain(caps(Extent { width: 800, height: 0 }), Extent { width: 800, height: 600 }), None);
}

#[test]
fn the_image_count_and_composite_follow_the_caps() {
    let mut unlimited = caps(Extent { width: 8, height: 8 });
    unlimited.max_image_count = 0;
    unlimited.min_image_count = u32::MAX;
    unlimited.supported_composite_alpha =
        (vk::CompositeAlphaFlagsKHR::POST_MULTIPLIED | vk::CompositeAlphaFlagsKHR::INHERIT).as_raw();
    unlimited.current_transform = vk::SurfaceTransformFlagsKHR::ROTATE_90.as_raw();
    let plan = plan_chain(unlimited, Extent { width: 8, height: 8 }).expect("renderable");
    assert_eq!(plan.image_count, u32::MAX, "saturating, and no cap when the maximum is zero");
    assert_eq!(plan.composite_alpha, vk::CompositeAlphaFlagsKHR::POST_MULTIPLIED.as_raw());
    assert_eq!(plan.transform, SurfaceTransform::Rotate90);

    let mut none = caps(Extent { width: 8, height: 8 });
    none.supported_composite_alpha = 0;
    assert_eq!(
        plan_chain(none, Extent { width: 8, height: 8 }).map(|p| p.composite_alpha),
        Some(vk::CompositeAlphaFlagsKHR::OPAQUE.as_raw()),
        "opaque when nothing is reported"
    );
}

fn plan(width: u32, height: u32, transform: SurfaceTransform) -> ChainPlan {
    ChainPlan { extent: Extent { width, height }, image_count: 3, composite_alpha: 1, transform }
}

#[test]
fn the_ring_alternates_between_its_slots() {
    let mut ring = FrameRing::new();
    assert_eq!(ring.frames_in_flight(), FRAMES_IN_FLIGHT);
    assert_eq!(FRAMES_IN_FLIGHT, 2);
    assert_eq!(ring.frame_slot(), 0);
    assert!(!ring.must_wait(), "a fresh ring has nothing outstanding");
    ring.submitted();
    assert_eq!(ring.frame_slot(), 1);
    assert!(!ring.must_wait(), "the second slot is clear for the first two frames");
    ring.submitted();
    assert_eq!(ring.frame_slot(), 0);
    assert!(ring.must_wait(), "the third frame waits for the first");
    ring.fence_cleared();
    assert!(!ring.must_wait());
    assert_eq!(ring.frame_slot(), 0, "clearing a fence does not advance the ring");
}

#[test]
fn a_dormant_target_reports_nothing_and_answers_resize() {
    let mut ring = FrameRing::new();
    assert_eq!(ring.extent(), Extent { width: 0, height: 0 }, "no chain yet");
    assert_eq!(ring.render_guard(false), Ok(None));
    ring.chain_built(plan(640, 480, SurfaceTransform::Rotate270));
    assert_eq!(ring.extent(), Extent { width: 640, height: 480 });
    assert_eq!(ring.transform(), SurfaceTransform::Rotate270);
    assert_eq!(ring.chain(), Some(ChainInfo { extent: Extent { width: 640, height: 480 }, transform: SurfaceTransform::Rotate270 }));

    ring.submitted();
    let mut poison = PoisonFlag::new();
    // A failed quiesce proves nothing: park, touch nothing else.
    assert_eq!(ring.abort(&mut poison, vk::Result::ERROR_OUT_OF_HOST_MEMORY.as_raw()), None);
    assert!(ring.dormant());
    assert_eq!(ring.extent(), Extent { width: 0, height: 0 });
    assert_eq!(ring.transform(), SurfaceTransform::Identity);
    assert!(ring.chain().is_some(), "the parked chain stays alive until a proven quiesce");
    assert_eq!(ring.render_guard(false), Ok(Some(PresentOutcome::NeedsResize)));
    assert_eq!(ring.render_guard(true), Err(TargetError::DeviceLost), "a lost device is reported first");

    // Only a resize thaws it, retiring the slot that was pending.
    assert_eq!(ring.resize_after_idle(), [true, false]);
    assert!(!ring.dormant());
    assert!(ring.chain().is_none());
    assert_eq!(ring.frame_slot(), 1);
}

#[test]
fn a_proven_quiesce_retires_everything_and_tears_the_chain_down() {
    let mut ring = FrameRing::new();
    ring.chain_built(plan(8, 8, SurfaceTransform::Identity));
    ring.submitted();
    ring.submitted();
    let mut poison = PoisonFlag::new();
    assert_eq!(ring.abort(&mut poison, vk::Result::SUCCESS.as_raw()), Some([true, true]));
    assert!(!ring.dormant());
    assert!(ring.chain().is_none());
    assert!(!ring.must_wait());
    assert!(!poison.poisoned());

    let mut lost = FrameRing::new();
    lost.submitted();
    assert_eq!(lost.abort(&mut poison, vk::Result::ERROR_DEVICE_LOST.as_raw()), Some([true, false]));
    assert!(poison.poisoned(), "a loss during the quiesce is recorded");
    assert!(!lost.dormant(), "a lost device ends execution as finally as an idle one");

    let mut down = FrameRing::new();
    down.chain_built(plan(8, 8, SurfaceTransform::Identity));
    down.submitted();
    assert_eq!(down.teardown(), [true, false]);
    assert!(down.chain().is_none());
}

#[test]
fn a_stale_swapchain_is_a_resize_not_an_error() {
    let mut poison = PoisonFlag::new();
    assert_eq!(acquire_failure(&mut poison, vk::Result::ERROR_OUT_OF_DATE_KHR.as_raw()), Ok(PresentOutcome::NeedsResize));
    assert_eq!(
        acquire_failure(&mut poison, vk::Result::TIMEOUT.as_raw()),
        Err(TargetError::Timeout { call: "vkAcquireNextImageKHR" })
    );
    assert_eq!(
        acquire_failure(&mut poison, vk::Result::NOT_READY.as_raw()),
        Err(TargetError::Timeout { call: "vkAcquireNextImageKHR" })
    );
    assert!(!poison.poisoned());
    assert_eq!(
        acquire_failure(&mut poison, vk::Result::ERROR_SURFACE_LOST_KHR.as_raw()),
        Err(TargetError::Creation {
            call: "vkAcquireNextImageKHR",
            code: vk::Result::ERROR_SURFACE_LOST_KHR.as_raw()
        })
    );
    assert_eq!(acquire_failure(&mut poison, vk::Result::ERROR_DEVICE_LOST.as_raw()), Err(TargetError::DeviceLost));
    assert!(poison.poisoned());

    let mut poison = PoisonFlag::new();
    assert_eq!(present_outcome(&mut poison, vk::Result::SUCCESS.as_raw(), false), Ok(PresentOutcome::Presented));
    assert_eq!(present_outcome(&mut poison, vk::Result::SUCCESS.as_raw(), true), Ok(PresentOutcome::NeedsResize));
    assert_eq!(present_outcome(&mut poison, vk::Result::SUBOPTIMAL_KHR.as_raw(), false), Ok(PresentOutcome::NeedsResize));
    assert_eq!(
        present_outcome(&mut poison, vk::Result::ERROR_OUT_OF_DATE_KHR.as_raw(), false),
        Ok(PresentOutcome::NeedsResize)
    );
    assert!(!poison.poisoned());
    assert_eq!(present_outcome(&mut poison, vk::Result::ERROR_DEVICE_LOST.as_raw(), false), Err(TargetError::DeviceLost));
    assert!(poison.poisoned());
}

#[test]
fn the_fence_watchdog_and_the_image_index_are_named() {
    let mut poison = PoisonFlag::new();
    assert_eq!(fence_wait_error(&mut poison, vk::Result::TIMEOUT.as_raw()), TargetError::Timeout { call: "vkWaitForFences" });
    assert_eq!(
        fence_wait_error(&mut poison, vk::Result::ERROR_OUT_OF_DEVICE_MEMORY.as_raw()),
        TargetError::OutOfDeviceMemory { call: "vkWaitForFences" }
    );
    assert!(!poison.poisoned());
    assert_eq!(check_image_index(2, 3), Ok(2));
    assert_eq!(check_image_index(3, 3), Err(TargetError::Creation { call: "vkAcquireNextImageKHR(index)", code: 0 }));
    assert_eq!(depth_guard(true, None), Err(TargetError::DepthUnsupported { chain: "D32_SFLOAT, D24_UNORM_S8_UINT" }));
    assert_eq!(depth_guard(true, Some(126)), Ok(()));
    assert_eq!(depth_guard(false, None), Ok(()));
}

#[test]
fn inverted_bounds_are_recognised_only_when_the_swapchain_chooses() {
    let mut open = caps(Extent { width: EXTENT_UNDEFINED, height: EXTENT_UNDEFINED });
    assert!(renew_rhi::swapchain::bounds_ordered(open));
    open.min_image_extent = Extent { width: 10, height: 1 };
    open.max_image_extent = Extent { width: 5, height: 5 };
    assert!(!renew_rhi::swapchain::bounds_ordered(open));
    open.current_extent = Extent { width: 5, height: 5 };
    assert!(renew_rhi::swapchain::bounds_ordered(open), "a reported extent is never clamped");
}

#[test]
fn a_zero_extent_resize_answers_resize_at_the_chain_guard() {
    let mut ring = FrameRing::new();
    assert_eq!(ring.chain_guard(), Some(PresentOutcome::NeedsResize), "no chain yet");
    ring.chain_built(plan(64, 32, SurfaceTransform::Identity));
    assert_eq!(ring.chain_guard(), None);
    ring.submitted();
    // A resize to a zero extent builds no chain.
    assert_eq!(ring.resize_after_idle(), [true, false]);
    assert_eq!(ring.render_guard(false), Ok(None));
    assert!(!ring.must_wait());
    assert_eq!(ring.chain_guard(), Some(PresentOutcome::NeedsResize));
    assert_eq!(ring.extent(), Extent { width: 0, height: 0 });
    assert_eq!(ring.frame_slot(), 1, "the slot is kept");
}
