use ash::vk;
use renew_rhi::device::{
    adapter_kind, adapter_rank, barrier_aspect, depth_name, describe_adapter, device_creation_error, graphics_family,
    instance_creation_error, instance_extensions, loader_unavailable, offers, select_adapter, select_depth_format,
    target_call_error, validation_enabled, wait_idle_error, wanted_device_extensions, AdapterCandidate, AdapterProperties,
    PoisonFlag, ADAPTER_REQUIREMENT, DEPTH_FORMAT_CHAIN, PORTABILITY_SUBSET, SWAPCHAIN,
};
use renew_rhi::formats::{
    FEATURE_DEPTH_STENCIL_ATTACHMENT, QUEUE_COMPUTE, QUEUE_GRAPHICS, QUEUE_TRANSFER, RESULT_ERROR_DEVICE_LOST,
    RESULT_ERROR_INCOMPATIBLE_DRIVER, RESULT_ERROR_OUT_OF_DATE, RESULT_ERROR_OUT_OF_DEVICE_MEMORY,
    RESULT_ERROR_OUT_OF_HOST_MEMORY, RESULT_NOT_READY, RESULT_SUBOPTIMAL, RESULT_SUCCESS, RESULT_TIMEOUT,
};
use renew_rhi::{AdapterKind, DeviceError, TargetError, Validation};

#[test]
fn poison_sets_only_on_device_loss_and_sticks() {
    let mut flag = PoisonFlag::new();
    assert!(!flag.poisoned(), "fresh flag is clean");
    assert!(!flag.note(vk::Result::ERROR_OUT_OF_HOST_MEMORY.as_raw()));
    assert!(!flag.poisoned(), "non-loss errors never poison");
    assert!(!flag.note(vk::Result::SUCCESS.as_raw()));
    assert!(flag.note(vk::Result::ERROR_DEVICE_LOST.as_raw()));
    assert!(flag.poisoned(), "device loss poisons");
    assert!(!flag.note(vk::Result::SUCCESS.as_raw()));
    assert!(flag.poisoned(), "poison is sticky");
    assert_eq!(flag.check(), Err(DeviceError::DeviceLost));
}

#[test]
fn the_depth_chain_prefers_d32_falls_back_to_d24_and_can_refuse_both() {
    let attachment = FEATURE_DEPTH_STENCIL_ATTACHMENT;
    assert_eq!(
        select_depth_format([attachment, attachment]),
        Some(vk::Format::D32_SFLOAT.as_raw()),
        "both supported: the chain's head wins"
    );
    assert_eq!(
        select_depth_format([0, attachment]),
        Some(vk::Format::D24_UNORM_S8_UINT.as_raw()),
        "D32 refused: the fallback is chosen"
    );
    assert_eq!(select_depth_format([0, 0]), None, "both refused: no format, not a panic");
    assert_eq!(DEPTH_FORMAT_CHAIN, [vk::Format::D32_SFLOAT.as_raw(), vk::Format::D24_UNORM_S8_UINT.as_raw()]);
    assert_eq!(FEATURE_DEPTH_STENCIL_ATTACHMENT, vk::FormatFeatureFlags::DEPTH_STENCIL_ATTACHMENT.as_raw());
}

#[test]
fn linear_only_support_never_qualifies_a_depth_format() {
    // What the adapter reports for optimal tiling is all that is read:
    // linear support never reaches this choice.
    let optimal = vk::FormatFeatureFlags::empty().as_raw();
    assert_eq!(
        select_depth_format([optimal, optimal]),
        None,
        "depth images are optimal-tiling; linear support is not support"
    );
}

#[test]
fn the_chain_formats_have_stable_diagnostic_names() {
    assert_eq!(depth_name(vk::Format::D32_SFLOAT.as_raw()), "D32_SFLOAT");
    assert_eq!(depth_name(vk::Format::D24_UNORM_S8_UINT.as_raw()), "D24_UNORM_S8_UINT");
    assert_eq!(depth_name(vk::Format::R8G8B8A8_UNORM.as_raw()), "(outside the chain)");
}

#[test]
fn the_barrier_aspect_follows_the_format() {
    assert_eq!(barrier_aspect(vk::Format::D32_SFLOAT.as_raw()), vk::ImageAspectFlags::DEPTH.as_raw());
    assert_eq!(
        barrier_aspect(vk::Format::D24_UNORM_S8_UINT.as_raw()),
        (vk::ImageAspectFlags::DEPTH | vk::ImageAspectFlags::STENCIL).as_raw()
    );
}

#[test]
fn the_adapter_gate_rejects_what_v0_cannot_render_with() {
    let families = [QUEUE_COMPUTE, QUEUE_GRAPHICS | QUEUE_TRANSFER];
    assert_eq!(graphics_family(&families, true, true), Some(1), "the first graphics-capable family is the chosen one");
    assert_eq!(graphics_family(&families[..1], true, true), None, "a compute-only adapter cannot render");
    assert_eq!(graphics_family(&[], true, true), None, "no queues, no adapter");
    assert_eq!(graphics_family(&families, false, true), None, "dynamic rendering is not optional: every frame uses it");
    assert_eq!(graphics_family(&families, true, false), None, "synchronization2 is not optional: every barrier uses it");
    assert_eq!(QUEUE_GRAPHICS, vk::QueueFlags::GRAPHICS.as_raw());
    assert_eq!(QUEUE_COMPUTE, vk::QueueFlags::COMPUTE.as_raw());
    assert_eq!(QUEUE_TRANSFER, vk::QueueFlags::TRANSFER.as_raw());
}

fn properties(device_type: vk::PhysicalDeviceType, device_id: u32, name: &str) -> AdapterProperties {
    AdapterProperties {
        device_type: device_type.as_raw(),
        device_id,
        vendor_id: 0x1002,
        driver_version: 42,
        name: Some(name.to_string()),
    }
}

#[test]
fn every_adapter_kind_maps_to_its_own_rank() {
    let table = [
        (vk::PhysicalDeviceType::DISCRETE_GPU, AdapterKind::DiscreteGpu, 0u8),
        (vk::PhysicalDeviceType::INTEGRATED_GPU, AdapterKind::IntegratedGpu, 1),
        (vk::PhysicalDeviceType::VIRTUAL_GPU, AdapterKind::VirtualGpu, 2),
        (vk::PhysicalDeviceType::CPU, AdapterKind::SoftwareRasterizer, 3),
        (vk::PhysicalDeviceType::OTHER, AdapterKind::Other, 4),
    ];
    let mut keys = Vec::with_capacity(table.len());
    for (device_type, kind, rank) in table {
        let (info, key) = describe_adapter(properties(device_type, 9, "renew adapter"));
        assert_eq!(info.kind, kind, "{device_type:?} classified wrongly");
        assert_eq!(key, (rank, 9), "{device_type:?} ranked wrongly");
        assert_eq!(adapter_kind(device_type.as_raw()), kind);
        assert_eq!(adapter_rank(kind), rank);
        keys.push(key);
    }
    let mut sorted = keys.clone();
    sorted.sort_unstable();
    assert_eq!(keys, sorted, "the table must already be in preference order");
    let (_, low) = describe_adapter(properties(vk::PhysicalDeviceType::DISCRETE_GPU, 1, "a"));
    let (_, high) = describe_adapter(properties(vk::PhysicalDeviceType::DISCRETE_GPU, 2, "b"));
    assert!(low < high);
}

#[test]
fn adapter_identity_survives_the_description() {
    let (info, _) = describe_adapter(properties(vk::PhysicalDeviceType::DISCRETE_GPU, 7, "renew reference adapter"));
    assert_eq!(info.name, "renew reference adapter");
    assert_eq!(info.device_id, 7);
    assert_eq!(info.vendor_id, 0x1002);
    assert_eq!(info.driver_version, 42);
}

#[test]
fn a_name_with_no_terminator_becomes_a_placeholder() {
    let mut unnamed = properties(vk::PhysicalDeviceType::CPU, 0, "");
    unnamed.name = None;
    assert_eq!(describe_adapter(unnamed).0.name, "(unnamed adapter)");
}

fn names(list: &[&str]) -> Vec<String> {
    list.iter().map(|name| name.to_string()).collect()
}

#[test]
fn the_portability_subset_is_requested_wherever_it_is_offered() {
    assert_eq!(wanted_device_extensions(&names(&["VK_KHR_portability_subset"]), false), [PORTABILITY_SUBSET]);
    assert!(
        wanted_device_extensions(&names(&["VK_KHR_maintenance5"]), false).is_empty(),
        "nothing v0 needs on offer, nothing requested"
    );
    assert!(wanted_device_extensions(&[], false).is_empty());
    assert_eq!(PORTABILITY_SUBSET.as_bytes(), ash::khr::portability_subset::NAME.to_bytes());
}

#[test]
fn the_swapchain_extension_is_requested_when_the_adapter_has_it() {
    assert_eq!(
        wanted_device_extensions(&names(&["VK_KHR_maintenance5", "VK_KHR_swapchain"]), true),
        [SWAPCHAIN]
    );
    assert!(
        wanted_device_extensions(&names(&["VK_KHR_swapchain"]), false).is_empty(),
        "a build that never presents asks for no swapchain"
    );
    assert_eq!(
        wanted_device_extensions(&names(&["VK_KHR_swapchain", "VK_KHR_portability_subset"]), true),
        [PORTABILITY_SUBSET, SWAPCHAIN]
    );
    assert_eq!(SWAPCHAIN.as_bytes(), ash::khr::swapchain::NAME.to_bytes());
}

#[test]
fn a_loader_failure_carries_the_loaders_own_words() {
    let words = "Cannot load `vkGetInstanceProcAddr` symbol from library";
    let mapped = loader_unavailable(words);
    assert!(
        matches!(&mapped, DeviceError::LoaderUnavailable { message } if message == words),
        "expected the loader's own words back, got {mapped:?}"
    );
}

#[test]
fn the_instance_extensions_follow_what_is_offered() {
    let offered = names(&[
        "VK_KHR_surface",
        "VK_KHR_xcb_surface",
        "VK_KHR_portability_enumeration",
        "VK_EXT_debug_utils",
    ]);
    let (wanted, portability) = instance_extensions(&offered, true, true);
    assert_eq!(
        wanted,
        ["VK_EXT_debug_utils", "VK_KHR_portability_enumeration", "VK_KHR_surface", "VK_KHR_xcb_surface"]
    );
    assert!(portability);
    let (wanted, portability) = instance_extensions(&names(&["VK_KHR_surface"]), false, false);
    assert!(wanted.is_empty(), "no validation, no presenting: nothing");
    assert!(!portability);
    assert_eq!("VK_EXT_debug_utils".as_bytes(), ash::ext::debug_utils::NAME.to_bytes());
    assert_eq!("VK_KHR_portability_enumeration".as_bytes(), ash::khr::portability_enumeration::NAME.to_bytes());
}

#[test]
fn the_validation_policy_decides_the_layer() {
    assert_eq!(validation_enabled(Validation::Off, true), Ok(false));
    assert_eq!(validation_enabled(Validation::IfAvailable, true), Ok(true));
    assert_eq!(validation_enabled(Validation::IfAvailable, false), Ok(false));
    assert_eq!(validation_enabled(Validation::Required, true), Ok(true));
    assert_eq!(validation_enabled(Validation::Required, false), Err(DeviceError::ValidationUnavailable));
    assert!(offers(&names(&["VK_LAYER_KHRONOS_validation"]), "VK_LAYER_KHRONOS_validation"));
    assert!(!offers(&names(&["VK_LAYER_other"]), "VK_LAYER_KHRONOS_validation"));
}

#[test]
fn each_refused_bring_up_call_names_itself() {
    assert_eq!(
        instance_creation_error(vk::Result::ERROR_OUT_OF_HOST_MEMORY.as_raw()),
        DeviceError::OutOfHostMemory { call: "vkCreateInstance" }
    );
    assert!(matches!(
        instance_creation_error(vk::Result::ERROR_INCOMPATIBLE_DRIVER.as_raw()),
        DeviceError::LoaderUnavailable { message } if message == "the loader found no compatible Vulkan driver"
    ));
    assert_eq!(
        instance_creation_error(vk::Result::ERROR_LAYER_NOT_PRESENT.as_raw()),
        DeviceError::Creation { call: "vkCreateInstance", code: vk::Result::ERROR_LAYER_NOT_PRESENT.as_raw() }
    );
    assert_eq!(
        device_creation_error("vkCreateDevice", vk::Result::ERROR_OUT_OF_HOST_MEMORY.as_raw()),
        DeviceError::OutOfHostMemory { call: "vkCreateDevice" }
    );
    assert_eq!(
        device_creation_error("vkCreateDevice", vk::Result::ERROR_FEATURE_NOT_PRESENT.as_raw()),
        DeviceError::Creation { call: "vkCreateDevice", code: vk::Result::ERROR_FEATURE_NOT_PRESENT.as_raw() }
    );
}

#[test]
fn a_failed_wait_poisons_only_on_loss() {
    let mut poison = PoisonFlag::new();
    assert_eq!(
        wait_idle_error(&mut poison, vk::Result::ERROR_OUT_OF_HOST_MEMORY.as_raw()),
        DeviceError::Creation { call: "vkDeviceWaitIdle", code: -1 }
    );
    assert!(!poison.poisoned());
    assert_eq!(wait_idle_error(&mut poison, vk::Result::ERROR_DEVICE_LOST.as_raw()), DeviceError::DeviceLost);
    assert!(poison.poisoned());
    let mut poison = PoisonFlag::new();
    assert_eq!(
        target_call_error(&mut poison, "vkQueueSubmit2", vk::Result::ERROR_OUT_OF_DEVICE_MEMORY.as_raw()),
        TargetError::OutOfDeviceMemory { call: "vkQueueSubmit2" }
    );
    assert_eq!(
        target_call_error(&mut poison, "vkQueueSubmit2", vk::Result::ERROR_DEVICE_LOST.as_raw()),
        TargetError::DeviceLost
    );
    assert!(poison.poisoned());
}

fn candidate(device_type: vk::PhysicalDeviceType, device_id: u32, families: &[u32], ready: bool) -> AdapterCandidate {
    AdapterCandidate {
        device_type: device_type.as_raw(),
        device_id,
        families: families.to_vec(),
        dynamic_rendering: ready,
        synchronization2: true,
    }
}

#[test]
fn selection_takes_the_least_key_among_usable_adapters() {
    let candidates = [
        candidate(vk::PhysicalDeviceType::CPU, 0, &[QUEUE_GRAPHICS], true),
        candidate(vk::PhysicalDeviceType::DISCRETE_GPU, 5, &[QUEUE_COMPUTE], true),
        candidate(vk::PhysicalDeviceType::INTEGRATED_GPU, 3, &[QUEUE_COMPUTE, QUEUE_GRAPHICS], true),
        candidate(vk::PhysicalDeviceType::DISCRETE_GPU, 1, &[QUEUE_GRAPHICS], false),
        candidate(vk::PhysicalDeviceType::INTEGRATED_GPU, 2, &[QUEUE_GRAPHICS], true),
    ];
    // The discrete adapters cannot render (no graphics queue; no dynamic
    // rendering), so the integrated one with the lower device ID wins.
    assert_eq!(select_adapter(&candidates), Ok((4, 0)));
    // Equal keys fall to enumeration order.
    let twins = [
        candidate(vk::PhysicalDeviceType::DISCRETE_GPU, 7, &[QUEUE_COMPUTE, QUEUE_GRAPHICS], true),
        candidate(vk::PhysicalDeviceType::DISCRETE_GPU, 7, &[QUEUE_GRAPHICS], true),
    ];
    assert_eq!(select_adapter(&twins), Ok((0, 1)));
    assert_eq!(
        select_adapter(&candidates[1..2]),
        Err(DeviceError::NoSuitableAdapter { requirement: ADAPTER_REQUIREMENT })
    );
    assert_eq!(ADAPTER_REQUIREMENT, "a graphics queue plus dynamic rendering and synchronization2");
    assert_eq!(select_adapter(&[]), Err(DeviceError::NoSuitableAdapter { requirement: ADAPTER_REQUIREMENT }));
}

#[test]
fn the_result_codes_are_the_vulkan_values() {
    assert_eq!(RESULT_SUCCESS, vk::Result::SUCCESS.as_raw());
    assert_eq!(RESULT_NOT_READY, vk::Result::NOT_READY.as_raw());
    assert_eq!(RESULT_TIMEOUT, vk::Result::TIMEOUT.as_raw());
    assert_eq!(RESULT_ERROR_OUT_OF_HOST_MEMORY, vk::Result::ERROR_OUT_OF_HOST_MEMORY.as_raw());
    assert_eq!(RESULT_ERROR_OUT_OF_DEVICE_MEMORY, vk::Result::ERROR_OUT_OF_DEVICE_MEMORY.as_raw());
    assert_eq!(RESULT_ERROR_DEVICE_LOST, vk::Result::ERROR_DEVICE_LOST.as_raw());
    assert_eq!(RESULT_ERROR_INCOMPATIBLE_DRIVER, vk::Result::ERROR_INCOMPATIBLE_DRIVER.as_raw());
    assert_eq!(RESULT_SUBOPTIMAL, vk::Result::SUBOPTIMAL_KHR.as_raw());
    assert_eq!(RESULT_ERROR_OUT_OF_DATE, vk::Result::ERROR_OUT_OF_DATE_KHR.as_raw());
}
