//! Device bring-up decisions: which adapter, which queue family, which
//! depth format, which layers and extensions, and what each refusal on
//! the way is reported as — all from what the driver reported, as plain
//! values. The device-lost poison lives here too.

use vstd::prelude::*;

use crate::config::{AdapterInfo, AdapterKind, Validation};
use crate::error::{DeviceError, TargetError};
use crate::formats::{
    spec_contains, contains, FEATURE_DEPTH_STENCIL_ATTACHMENT, FORMAT_D24_UNORM_S8_UINT,
    FORMAT_D32_SFLOAT, QUEUE_GRAPHICS, RESULT_ERROR_DEVICE_LOST, RESULT_ERROR_INCOMPATIBLE_DRIVER,
    RESULT_ERROR_OUT_OF_DEVICE_MEMORY, RESULT_ERROR_OUT_OF_HOST_MEMORY,
};

verus! {

/// `VK_PHYSICAL_DEVICE_TYPE_INTEGRATED_GPU`.
pub const DEVICE_TYPE_INTEGRATED_GPU: i32 = 1;
/// `VK_PHYSICAL_DEVICE_TYPE_DISCRETE_GPU`.
pub const DEVICE_TYPE_DISCRETE_GPU: i32 = 2;
/// `VK_PHYSICAL_DEVICE_TYPE_VIRTUAL_GPU`.
pub const DEVICE_TYPE_VIRTUAL_GPU: i32 = 3;
/// `VK_PHYSICAL_DEVICE_TYPE_CPU`.
pub const DEVICE_TYPE_CPU: i32 = 4;

/// `VK_IMAGE_ASPECT_DEPTH_BIT`.
pub const ASPECT_DEPTH: u32 = 0x2;
/// `VK_IMAGE_ASPECT_STENCIL_BIT`.
pub const ASPECT_STENCIL: u32 = 0x4;

/// The validation layer's name.
pub const VALIDATION_LAYER: &'static str = "VK_LAYER_KHRONOS_validation";
/// The debug-utils instance extension.
pub const DEBUG_UTILS: &'static str = "VK_EXT_debug_utils";
/// The instance extension that lists portability adapters.
pub const PORTABILITY_ENUMERATION: &'static str = "VK_KHR_portability_enumeration";
/// The device extension a portability adapter requires enabled.
pub const PORTABILITY_SUBSET: &'static str = "VK_KHR_portability_subset";
/// The device extension the present path runs on.
pub const SWAPCHAIN: &'static str = "VK_KHR_swapchain";
/// The instance extensions a window surface may need, whichever this
/// platform offers.
pub const SURFACE_EXTENSIONS: [&'static str; 6] = [
    "VK_KHR_surface",
    "VK_KHR_win32_surface",
    "VK_KHR_xlib_surface",
    "VK_KHR_xcb_surface",
    "VK_KHR_wayland_surface",
    "VK_EXT_metal_surface",
];

/// What a bring-up that found no usable adapter says was required.
pub const ADAPTER_REQUIREMENT: &'static str = "a graphics queue plus dynamic rendering and synchronization2";

/// What a loader with no driver behind it is reported as.
pub const NO_COMPATIBLE_DRIVER: &'static str = "the loader found no compatible Vulkan driver";

/// What an adapter whose name cannot be read is called.
pub const UNNAMED_ADAPTER: &'static str = "(unnamed adapter)";

/// The device-lost poison: once set it never clears, and every later
/// operation on the device fails fast.
#[derive(Debug)]
pub struct PoisonFlag {
    lost: bool,
}

impl View for PoisonFlag {
    type V = bool;

    closed spec fn view(&self) -> bool {
        self.lost
    }
}

impl PoisonFlag {
    /// A clean flag.
    pub fn new() -> (f: Self)
        ensures
            !f@,
    {
        PoisonFlag { lost: false }
    }

    /// Whether the device has been lost.
    pub fn poisoned(&self) -> (r: bool)
        ensures
            r == self@,
    {
        self.lost
    }

    /// Record a raw result: poisons on device loss, and answers whether
    /// this result was one.
    pub fn note(&mut self, result: i32) -> (r: bool)
        ensures
            r == (result == RESULT_ERROR_DEVICE_LOST),
            final(self)@ == (old(self)@ || r),
    {
        if result == RESULT_ERROR_DEVICE_LOST {
            self.lost = true;
            true
        } else {
            false
        }
    }

    /// Fail fast once the device is lost.
    pub fn check(&self) -> (r: Result<(), DeviceError>)
        ensures
            r == (if self@ { Err::<(), DeviceError>(DeviceError::DeviceLost) } else { Ok(()) }),
    {
        if self.lost {
            Err(DeviceError::DeviceLost)
        } else {
            Ok(())
        }
    }
}

/// The poison is sticky: a poisoned flag stays poisoned whatever result
/// is noted next, and only a device loss poisons a clean one.
pub proof fn lemma_poison_is_sticky(before: bool, result: i32)
    ensures
        before ==> (before || result == RESULT_ERROR_DEVICE_LOST),
        !before ==> ((before || result == RESULT_ERROR_DEVICE_LOST) <==> result == RESULT_ERROR_DEVICE_LOST),
{
}

/// The error a failed device-wide wait is reported as, noting the result
/// on the poison first.
pub fn wait_idle_error(poison: &mut PoisonFlag, code: i32) -> (e: DeviceError)
    ensures
        final(poison)@ == (old(poison)@ || code == RESULT_ERROR_DEVICE_LOST),
        e == (if code == RESULT_ERROR_DEVICE_LOST {
            DeviceError::DeviceLost
        } else {
            DeviceError::Creation { call: "vkDeviceWaitIdle", code }
        }),
{
    if poison.note(code) {
        DeviceError::DeviceLost
    } else {
        DeviceError::Creation { call: "vkDeviceWaitIdle", code }
    }
}

/// A refused creation call, as a target error: device-memory exhaustion
/// by name, anything else with its code.
pub open spec fn spec_target_creation(call: &'static str, code: i32) -> TargetError {
    if code == RESULT_ERROR_OUT_OF_DEVICE_MEMORY {
        TargetError::OutOfDeviceMemory { call }
    } else {
        TargetError::Creation { call, code }
    }
}

/// A refused creation call, as a target error.
pub fn target_creation(call: &'static str, code: i32) -> (e: TargetError)
    ensures
        e == spec_target_creation(call, code),
{
    if code == RESULT_ERROR_OUT_OF_DEVICE_MEMORY {
        TargetError::OutOfDeviceMemory { call }
    } else {
        TargetError::Creation { call, code }
    }
}

/// What a refused call on a target's path is reported as.
pub open spec fn spec_target_call_error(call: &'static str, code: i32) -> TargetError {
    if code == RESULT_ERROR_DEVICE_LOST {
        TargetError::DeviceLost
    } else if code == RESULT_ERROR_OUT_OF_DEVICE_MEMORY {
        TargetError::OutOfDeviceMemory { call }
    } else {
        TargetError::Creation { call, code }
    }
}

/// A refused call on a target's frame path: a lost device (noted on the
/// poison) is reported as such, anything else as a refused creation.
pub fn target_call_error(poison: &mut PoisonFlag, call: &'static str, code: i32) -> (e: TargetError)
    ensures
        final(poison)@ == (old(poison)@ || code == RESULT_ERROR_DEVICE_LOST),
        e == spec_target_call_error(call, code),
{
    if poison.note(code) {
        TargetError::DeviceLost
    } else {
        target_creation(call, code)
    }
}

/// The no-Vulkan-runtime seam: the loader's own words, carried through
/// verbatim.
pub fn loader_unavailable(message: &str) -> (e: DeviceError)
    ensures
        e matches DeviceError::LoaderUnavailable { message: m } && m@ == message@,
{
    DeviceError::LoaderUnavailable { message: String::from_str(message) }
}

/// What a refused `vkCreateInstance` is reported as: host-memory
/// exhaustion by name; a loader with no driver behind it as the same "no
/// usable runtime" seam as a missing loader; anything else with its
/// code.
pub fn instance_creation_error(code: i32) -> (e: DeviceError)
    ensures
        code == RESULT_ERROR_OUT_OF_HOST_MEMORY ==> e == (DeviceError::OutOfHostMemory { call: "vkCreateInstance" }),
        code == RESULT_ERROR_INCOMPATIBLE_DRIVER ==> (e matches DeviceError::LoaderUnavailable { message: m }
            && m@ == NO_COMPATIBLE_DRIVER@),
        code != RESULT_ERROR_OUT_OF_HOST_MEMORY && code != RESULT_ERROR_INCOMPATIBLE_DRIVER ==> e
            == (DeviceError::Creation { call: "vkCreateInstance", code }),
{
    if code == RESULT_ERROR_OUT_OF_HOST_MEMORY {
        DeviceError::OutOfHostMemory { call: "vkCreateInstance" }
    } else if code == RESULT_ERROR_INCOMPATIBLE_DRIVER {
        DeviceError::LoaderUnavailable { message: String::from_str(NO_COMPATIBLE_DRIVER) }
    } else {
        DeviceError::Creation { call: "vkCreateInstance", code }
    }
}

/// What a refused device-level creation call is reported as: host-memory
/// exhaustion by name, anything else with its code.
pub fn device_creation_error(call: &'static str, code: i32) -> (e: DeviceError)
    ensures
        e == (if code == RESULT_ERROR_OUT_OF_HOST_MEMORY {
            DeviceError::OutOfHostMemory { call }
        } else {
            DeviceError::Creation { call, code }
        }),
{
    if code == RESULT_ERROR_OUT_OF_HOST_MEMORY {
        DeviceError::OutOfHostMemory { call }
    } else {
        DeviceError::Creation { call, code }
    }
}

/// Whether the validation layer is switched on, given the policy and
/// whether the layer is installed; a required layer that is missing is
/// a refusal.
pub fn validation_enabled(policy: Validation, layer_available: bool) -> (r: Result<bool, DeviceError>)
    ensures
        r == (match policy {
            Validation::Off => Ok::<bool, DeviceError>(false),
            Validation::IfAvailable => Ok(layer_available),
            Validation::Required => if layer_available {
                Ok(true)
            } else {
                Err(DeviceError::ValidationUnavailable)
            },
        }),
{
    match policy {
        Validation::Off => Ok(false),
        Validation::IfAvailable => Ok(layer_available),
        Validation::Required => {
            if layer_available {
                Ok(true)
            } else {
                Err(DeviceError::ValidationUnavailable)
            }
        },
    }
}

/// Whether a list of names the driver reported holds `wanted`.
pub open spec fn spec_offers(names: Seq<String>, wanted: &str) -> bool {
    exists|i: int| 0 <= i < names.len() && #[trigger] names[i]@ == wanted@
}

/// Whether the driver's list of names (layers or extensions) holds
/// `wanted`.
pub fn offers(names: &[String], wanted: &str) -> (r: bool)
    ensures
        r == spec_offers(names@, wanted),
{
    let target = String::from_str(wanted);
    let mut i: usize = 0;
    while i < names.len()
        invariant
            i <= names@.len(),
            target@ == wanted@,
            forall|j: int| 0 <= j < i ==> names@[j]@ != wanted@,
        decreases names@.len() - i,
    {
        if names[i] == target {
            assert(names@[i as int]@ == wanted@);
            return true;
        }
        i = i + 1;
    }
    false
}

/// The surface extensions of `names` the driver offers, in list order.
pub open spec fn offered_from(names: Seq<&'static str>, available: Seq<String>) -> Seq<&'static str>
    decreases names.len(),
{
    if names.len() == 0 {
        Seq::empty()
    } else {
        let rest = offered_from(names.drop_last(), available);
        if spec_offers(available, names.last()) { rest.push(names.last()) } else { rest }
    }
}

/// The instance extensions bring-up asks for, and whether portability
/// adapters are to be enumerated: debug utils when validation is on; the
/// portability enumeration wherever offered (so a portability driver's
/// adapters are listed at all); and, for a build that presents, every
/// surface extension the platform offers.
pub open spec fn spec_instance_extensions(available: Seq<String>, validation_on: bool, present: bool) -> Seq<&'static str> {
    let debug = if validation_on { seq![DEBUG_UTILS] } else { Seq::empty() };
    let portability = if spec_offers(available, PORTABILITY_ENUMERATION) {
        seq![PORTABILITY_ENUMERATION]
    } else {
        Seq::empty()
    };
    let surfaces = if present { offered_from(SURFACE_EXTENSIONS@, available) } else { Seq::empty() };
    debug + portability + surfaces
}

proof fn lemma_offered_from_contains(names: Seq<&'static str>, available: Seq<String>, x: &'static str)
    ensures
        offered_from(names, available).contains(x) <==> (names.contains(x) && spec_offers(available, x)),
    decreases names.len(),
{
    if names.len() > 0 {
        let init = names.drop_last();
        let rest = offered_from(init, available);
        lemma_offered_from_contains(init, available, x);
        assert(names =~= init.push(names.last()));
        if names.contains(x) && !init.contains(x) {
            let k = choose|k: int| 0 <= k < names.len() && names[k] == x;
            if k < init.len() {
                assert(init[k] == x);
            }
        }
        if init.contains(x) {
            let k = choose|k: int| 0 <= k < init.len() && init[k] == x;
            assert(names[k] == x);
        }
        if spec_offers(available, names.last()) {
            let full = rest.push(names.last());
            if full.contains(x) && !rest.contains(x) {
                let k = choose|k: int| 0 <= k < full.len() && full[k] == x;
                if k < rest.len() {
                    assert(rest[k] == x);
                }
            }
            if rest.contains(x) {
                let k = choose|k: int| 0 <= k < rest.len() && rest[k] == x;
                assert(full[k] == x);
            }
            assert(full[rest.len() as int] == names.last());
        }
    }
}

/// No window-surface extension is named like the debug-utils or the
/// portability-enumeration extension, and those two differ.
proof fn lemma_surface_names_distinct(i: int)
    requires
        0 <= i < SURFACE_EXTENSIONS@.len(),
    ensures
        SURFACE_EXTENSIONS@[i] != DEBUG_UTILS,
        SURFACE_EXTENSIONS@[i] != PORTABILITY_ENUMERATION,
        DEBUG_UTILS != PORTABILITY_ENUMERATION,
{
    let x = SURFACE_EXTENSIONS@[i];
    reveal_strlit("VK_KHR_surface");
    reveal_strlit("VK_KHR_win32_surface");
    reveal_strlit("VK_KHR_xlib_surface");
    reveal_strlit("VK_KHR_xcb_surface");
    reveal_strlit("VK_KHR_wayland_surface");
    reveal_strlit("VK_EXT_metal_surface");
    reveal_strlit("VK_EXT_debug_utils");
    reveal_strlit("VK_KHR_portability_enumeration");
    assert(DEBUG_UTILS@ == "VK_EXT_debug_utils"@);
    assert(PORTABILITY_ENUMERATION@ == "VK_KHR_portability_enumeration"@);
    assert(DEBUG_UTILS@[3] == 'E' && DEBUG_UTILS@.len() == 18);
    assert(PORTABILITY_ENUMERATION@.len() == 30);
    if i == 0 {
        assert(x == "VK_KHR_surface");
    } else if i == 1 {
        assert(x == "VK_KHR_win32_surface");
    } else if i == 2 {
        assert(x == "VK_KHR_xlib_surface");
    } else if i == 3 {
        assert(x == "VK_KHR_xcb_surface");
        assert(x@[3] == 'K');
    } else if i == 4 {
        assert(x == "VK_KHR_wayland_surface");
    } else {
        assert(x == "VK_EXT_metal_surface");
    }
    assert(x@ != DEBUG_UTILS@);
    assert(x@ != PORTABILITY_ENUMERATION@);
    assert(x != DEBUG_UTILS);
    assert(x != PORTABILITY_ENUMERATION);
    assert(DEBUG_UTILS@ != PORTABILITY_ENUMERATION@);
}

/// Debug utils are enabled exactly when validation is, and the
/// portability enumeration exactly when the driver offers it, whether
/// the build presents or not.
pub proof fn lemma_debug_and_portability_follow_their_inputs(
    available: Seq<String>,
    validation_on: bool,
    present: bool,
)
    ensures
        spec_instance_extensions(available, validation_on, present).contains(DEBUG_UTILS) <==> validation_on,
        spec_instance_extensions(available, validation_on, present).contains(PORTABILITY_ENUMERATION)
            <==> spec_offers(available, PORTABILITY_ENUMERATION),
{
    lemma_surface_names_distinct(0);
    let debug: Seq<&'static str> = if validation_on { seq![DEBUG_UTILS] } else { Seq::empty() };
    let portability: Seq<&'static str> = if spec_offers(available, PORTABILITY_ENUMERATION) {
        seq![PORTABILITY_ENUMERATION]
    } else {
        Seq::empty()
    };
    let surfaces = if present { offered_from(SURFACE_EXTENSIONS@, available) } else { Seq::<&'static str>::empty() };
    let all = debug + portability + surfaces;
    assert(all == spec_instance_extensions(available, validation_on, present));
    lemma_offered_from_contains(SURFACE_EXTENSIONS@, available, DEBUG_UTILS);
    lemma_offered_from_contains(SURFACE_EXTENSIONS@, available, PORTABILITY_ENUMERATION);
    assert(!SURFACE_EXTENSIONS@.contains(DEBUG_UTILS) && !SURFACE_EXTENSIONS@.contains(PORTABILITY_ENUMERATION)) by {
        if SURFACE_EXTENSIONS@.contains(DEBUG_UTILS) {
            let k = choose|k: int| 0 <= k < SURFACE_EXTENSIONS@.len() && SURFACE_EXTENSIONS@[k] == DEBUG_UTILS;
            lemma_surface_names_distinct(k);
        }
        if SURFACE_EXTENSIONS@.contains(PORTABILITY_ENUMERATION) {
            let k = choose|k: int| 0 <= k < SURFACE_EXTENSIONS@.len() && SURFACE_EXTENSIONS@[k] == PORTABILITY_ENUMERATION;
            lemma_surface_names_distinct(k);
        }
    }
    let dl = debug.len() as int;
    let pl = portability.len() as int;
    assert forall|x: &'static str| #[trigger] all.contains(x) implies debug.contains(x) || portability.contains(x)
        || surfaces.contains(x) by {
        let k = choose|k: int| 0 <= k < all.len() && all[k] == x;
        if k < dl {
            assert(all[k] == debug[k]);
        } else if k < dl + pl {
            assert(all[k] == portability[k - dl]);
        } else {
            assert(all[k] == surfaces[k - dl - pl]);
        }
    }
    if validation_on {
        assert(all[0] == DEBUG_UTILS);
    }
    if spec_offers(available, PORTABILITY_ENUMERATION) {
        assert(all[dl] == PORTABILITY_ENUMERATION);
    }
}

/// A presenting build enables every window-surface extension the driver
/// offers, whatever the validation setting, and a build that does not
/// present enables none of them: surface extension `i` is in the list
/// exactly when the build presents and the driver offers it.
pub proof fn lemma_surface_extensions_follow_present(
    available: Seq<String>,
    validation_on: bool,
    present: bool,
    i: int,
)
    requires
        0 <= i < SURFACE_EXTENSIONS@.len(),
    ensures
        spec_instance_extensions(available, validation_on, present).contains(SURFACE_EXTENSIONS@[i]) <==> (present
            && spec_offers(available, SURFACE_EXTENSIONS@[i])),
{
    let x = SURFACE_EXTENSIONS@[i];
    lemma_surface_names_distinct(i);
    let debug: Seq<&'static str> = if validation_on { seq![DEBUG_UTILS] } else { Seq::empty() };
    let portability: Seq<&'static str> = if spec_offers(available, PORTABILITY_ENUMERATION) {
        seq![PORTABILITY_ENUMERATION]
    } else {
        Seq::empty()
    };
    let head = debug + portability;
    let surfaces = if present { offered_from(SURFACE_EXTENSIONS@, available) } else { Seq::<&'static str>::empty() };
    let all = head + surfaces;
    assert(all == spec_instance_extensions(available, validation_on, present));
    assert(!head.contains(x)) by {
        if head.contains(x) {
            let k = choose|k: int| 0 <= k < head.len() && head[k] == x;
            if k < debug.len() {
                assert(head[k] == debug[k]);
            } else {
                assert(head[k] == portability[k - debug.len()]);
            }
        }
    }
    lemma_offered_from_contains(SURFACE_EXTENSIONS@, available, x);
    assert(SURFACE_EXTENSIONS@.contains(x)) by {
        assert(SURFACE_EXTENSIONS@[i] == x);
    }
    if all.contains(x) {
        let k = choose|k: int| 0 <= k < all.len() && all[k] == x;
        if k < head.len() {
            assert(all[k] == head[k]);
        } else {
            assert(all[k] == surfaces[k - head.len()]);
            assert(surfaces.contains(x));
        }
    }
    if present && spec_offers(available, x) {
        let k = choose|k: int| 0 <= k < surfaces.len() && surfaces[k] == x;
        assert(all[head.len() + k] == surfaces[k]);
    }
}

/// The instance extensions to enable, and whether the portability
/// enumeration flag goes with them.
pub fn instance_extensions(available: &[String], validation_on: bool, present: bool) -> (r: (Vec<&'static str>, bool))
    ensures
        r.0@ == spec_instance_extensions(available@, validation_on, present),
        r.1 == spec_offers(available@, PORTABILITY_ENUMERATION),
{
    let mut wanted: Vec<&'static str> = Vec::new();
    if validation_on {
        wanted.push(DEBUG_UTILS);
    }
    let portability = offers(available, PORTABILITY_ENUMERATION);
    if portability {
        wanted.push(PORTABILITY_ENUMERATION);
    }
    let ghost head = wanted@;
    if present {
        let names = SURFACE_EXTENSIONS;
        let mut i: usize = 0;
        while i < 6
            invariant
                i <= 6,
                names@ == SURFACE_EXTENSIONS@,
                wanted@ == head + offered_from(names@.take(i as int), available@),
            decreases 6 - i,
        {
            let name = names[i];
            let has = offers(available, name);
            proof {
                assert(names@.take(i + 1).drop_last() =~= names@.take(i as int));
                assert(names@.take(i + 1).last() == name);
            }
            if has {
                wanted.push(name);
            }
            proof {
                assert(wanted@ =~= head + offered_from(names@.take(i + 1), available@));
            }
            i = i + 1;
        }
        proof {
            assert(names@.take(6) =~= names@);
        }
    }
    proof {
        if !present {
            assert(wanted@ =~= head + Seq::<&'static str>::empty());
        }
    }
    (wanted, portability)
}

/// The device extensions to enable, from what the adapter reports: the
/// portability subset wherever it is exposed (a portability driver
/// requires it), and the swapchain for a build that presents.
pub fn wanted_device_extensions(available: &[String], present: bool) -> (r: Vec<&'static str>)
    ensures
        r@ == (if spec_offers(available@, PORTABILITY_SUBSET) { seq![PORTABILITY_SUBSET] } else { Seq::empty() })
            + (if present && spec_offers(available@, SWAPCHAIN) { seq![SWAPCHAIN] } else { Seq::empty() }),
{
    let mut wanted: Vec<&'static str> = Vec::new();
    if offers(available, PORTABILITY_SUBSET) {
        wanted.push(PORTABILITY_SUBSET);
    }
    let ghost head = wanted@;
    if present && offers(available, SWAPCHAIN) {
        wanted.push(SWAPCHAIN);
        assert(wanted@ =~= head + seq![SWAPCHAIN]);
    } else {
        assert(wanted@ =~= head + Seq::<&'static str>::empty());
    }
    wanted
}

/// The first queue family, from `from` on, that can do graphics.
pub open spec fn first_graphics_from(families: Seq<u32>, from: int) -> Option<int>
    decreases families.len() - from,
{
    if from < 0 || from >= families.len() {
        None
    } else if spec_contains(families[from], QUEUE_GRAPHICS) {
        Some(from)
    } else {
        first_graphics_from(families, from + 1)
    }
}

/// The adapter requirement as a predicate over what the driver reported:
/// dynamic rendering and synchronization2, and a graphics-capable queue
/// family — the first one, when its index fits the driver's integer.
pub open spec fn spec_graphics_family(families: Seq<u32>, dynamic_rendering: bool, synchronization2: bool) -> Option<u32> {
    if !dynamic_rendering || !synchronization2 {
        None
    } else {
        match first_graphics_from(families, 0) {
            Some(i) => if i <= u32::MAX { Some(i as u32) } else { None },
            None => None,
        }
    }
}

proof fn lemma_first_graphics_skips(families: Seq<u32>, from: int)
    requires
        0 <= from < families.len(),
        !spec_contains(families[from], QUEUE_GRAPHICS),
    ensures
        first_graphics_from(families, from) == first_graphics_from(families, from + 1),
{
}

proof fn lemma_first_graphics_is_first(families: Seq<u32>, from: int)
    requires
        0 <= from,
    ensures
        match first_graphics_from(families, from) {
            Some(i) => from <= i < families.len() && spec_contains(families[i], QUEUE_GRAPHICS) && forall|k: int|
                from <= k < i ==> !spec_contains(#[trigger] families[k], QUEUE_GRAPHICS),
            None => forall|k: int| from <= k < families.len() ==> !spec_contains(#[trigger] families[k], QUEUE_GRAPHICS),
        },
    decreases families.len() - from,
{
    if from < families.len() && !spec_contains(families[from], QUEUE_GRAPHICS) {
        lemma_first_graphics_is_first(families, from + 1);
    }
}

/// The queue family chosen is the first family that supports graphics,
/// on an adapter with dynamic rendering and synchronization2; there is
/// none when either feature is missing or no family supports graphics.
pub proof fn lemma_graphics_family_is_first(families: Seq<u32>, dynamic_rendering: bool, synchronization2: bool)
    requires
        families.len() <= u32::MAX,
    ensures
        match spec_graphics_family(families, dynamic_rendering, synchronization2) {
            Some(i) => {
                &&& dynamic_rendering && synchronization2
                &&& i < families.len()
                &&& spec_contains(families[i as int], QUEUE_GRAPHICS)
                &&& forall|k: int| 0 <= k < i ==> !spec_contains(#[trigger] families[k], QUEUE_GRAPHICS)
            },
            None => !dynamic_rendering || !synchronization2 || forall|k: int|
                0 <= k < families.len() ==> !spec_contains(#[trigger] families[k], QUEUE_GRAPHICS),
        },
{
    lemma_first_graphics_is_first(families, 0);
}

/// The queue family every frame is recorded on, or `None` when the
/// adapter cannot render here.
pub fn graphics_family(families: &[u32], dynamic_rendering: bool, synchronization2: bool) -> (r: Option<u32>)
    ensures
        r == spec_graphics_family(families@, dynamic_rendering, synchronization2),
{
    if !dynamic_rendering || !synchronization2 {
        return None;
    }
    let mut i: usize = 0;
    while i < families.len()
        invariant
            i <= families@.len(),
            dynamic_rendering && synchronization2,
            first_graphics_from(families@, 0) == first_graphics_from(families@, i as int),
        decreases families@.len() - i,
    {
        if contains(families[i], QUEUE_GRAPHICS) {
            assert(first_graphics_from(families@, i as int) == Some(i as int));
            if i <= u32::MAX as usize {
                return Some(i as u32);
            } else {
                return None;
            }
        }
        proof {
            lemma_first_graphics_skips(families@, i as int);
        }
        i = i + 1;
    }
    None
}

/// The depth formats bring-up accepts, best first: the full-float range,
/// then the near-universal fallback.
pub const DEPTH_FORMAT_CHAIN: [i32; 2] = [FORMAT_D32_SFLOAT, FORMAT_D24_UNORM_S8_UINT];

/// The depth format chosen from the optimal-tiling feature flags the
/// adapter reports for each format of the chain, in chain order: the
/// first whose optimal tiling supports depth-stencil attachment use.
/// Linear-tiling support does not count: depth images are created
/// optimal.
pub fn select_depth_format(optimal_tiling_features: [u32; 2]) -> (r: Option<i32>)
    ensures
        r == (if spec_contains(optimal_tiling_features[0], FEATURE_DEPTH_STENCIL_ATTACHMENT) {
            Some(FORMAT_D32_SFLOAT)
        } else if spec_contains(optimal_tiling_features[1], FEATURE_DEPTH_STENCIL_ATTACHMENT) {
            Some(FORMAT_D24_UNORM_S8_UINT)
        } else {
            None
        }),
{
    if contains(optimal_tiling_features[0], FEATURE_DEPTH_STENCIL_ATTACHMENT) {
        Some(FORMAT_D32_SFLOAT)
    } else if contains(optimal_tiling_features[1], FEATURE_DEPTH_STENCIL_ATTACHMENT) {
        Some(FORMAT_D24_UNORM_S8_UINT)
    } else {
        None
    }
}

/// The chain's diagnostic names.
pub fn depth_name(format: i32) -> (name: &'static str)
    ensures
        name == (if format == FORMAT_D32_SFLOAT {
            "D32_SFLOAT"
        } else if format == FORMAT_D24_UNORM_S8_UINT {
            "D24_UNORM_S8_UINT"
        } else {
            "(outside the chain)"
        }),
{
    if format == FORMAT_D32_SFLOAT {
        "D32_SFLOAT"
    } else if format == FORMAT_D24_UNORM_S8_UINT {
        "D24_UNORM_S8_UINT"
    } else {
        "(outside the chain)"
    }
}

/// The aspects a barrier on a depth format names: both when the format
/// carries stencil (the whole image transitions together), depth alone
/// otherwise.
pub fn barrier_aspect(format: i32) -> (aspect: u32)
    ensures
        aspect == (if format == FORMAT_D24_UNORM_S8_UINT { ASPECT_DEPTH | ASPECT_STENCIL } else { ASPECT_DEPTH }),
{
    if format == FORMAT_D24_UNORM_S8_UINT {
        ASPECT_DEPTH | ASPECT_STENCIL
    } else {
        ASPECT_DEPTH
    }
}

/// Adapters are preferred discrete first, then integrated, virtual,
/// software rasterizers, and anything else last — each kind strictly
/// before the next — and each registry device type is classified as its
/// own kind, every unknown one as "other".
pub proof fn lemma_adapter_preference(device_type: i32)
    ensures
        spec_rank(AdapterKind::DiscreteGpu) < spec_rank(AdapterKind::IntegratedGpu),
        spec_rank(AdapterKind::IntegratedGpu) < spec_rank(AdapterKind::VirtualGpu),
        spec_rank(AdapterKind::VirtualGpu) < spec_rank(AdapterKind::SoftwareRasterizer),
        spec_rank(AdapterKind::SoftwareRasterizer) < spec_rank(AdapterKind::Other),
        device_type == DEVICE_TYPE_DISCRETE_GPU <==> spec_adapter_kind(device_type) == AdapterKind::DiscreteGpu,
        device_type == DEVICE_TYPE_INTEGRATED_GPU <==> spec_adapter_kind(device_type) == AdapterKind::IntegratedGpu,
        device_type == DEVICE_TYPE_VIRTUAL_GPU <==> spec_adapter_kind(device_type) == AdapterKind::VirtualGpu,
        device_type == DEVICE_TYPE_CPU <==> spec_adapter_kind(device_type) == AdapterKind::SoftwareRasterizer,
{
}

/// The kind of an adapter, from the driver's device type.
pub open spec fn spec_adapter_kind(device_type: i32) -> AdapterKind {
    if device_type == DEVICE_TYPE_DISCRETE_GPU {
        AdapterKind::DiscreteGpu
    } else if device_type == DEVICE_TYPE_INTEGRATED_GPU {
        AdapterKind::IntegratedGpu
    } else if device_type == DEVICE_TYPE_VIRTUAL_GPU {
        AdapterKind::VirtualGpu
    } else if device_type == DEVICE_TYPE_CPU {
        AdapterKind::SoftwareRasterizer
    } else {
        AdapterKind::Other
    }
}

/// The preference rank of a kind: lower is preferred.
pub open spec fn spec_rank(kind: AdapterKind) -> u8 {
    match kind {
        AdapterKind::DiscreteGpu => 0,
        AdapterKind::IntegratedGpu => 1,
        AdapterKind::VirtualGpu => 2,
        AdapterKind::SoftwareRasterizer => 3,
        AdapterKind::Other => 4,
    }
}

/// The kind of an adapter, from the driver's device type.
pub fn adapter_kind(device_type: i32) -> (k: AdapterKind)
    ensures
        k == spec_adapter_kind(device_type),
{
    if device_type == DEVICE_TYPE_DISCRETE_GPU {
        AdapterKind::DiscreteGpu
    } else if device_type == DEVICE_TYPE_INTEGRATED_GPU {
        AdapterKind::IntegratedGpu
    } else if device_type == DEVICE_TYPE_VIRTUAL_GPU {
        AdapterKind::VirtualGpu
    } else if device_type == DEVICE_TYPE_CPU {
        AdapterKind::SoftwareRasterizer
    } else {
        AdapterKind::Other
    }
}

/// The preference rank of a kind.
pub fn adapter_rank(kind: AdapterKind) -> (r: u8)
    ensures
        r == spec_rank(kind),
{
    match kind {
        AdapterKind::DiscreteGpu => 0,
        AdapterKind::IntegratedGpu => 1,
        AdapterKind::VirtualGpu => 2,
        AdapterKind::SoftwareRasterizer => 3,
        AdapterKind::Other => 4,
    }
}

/// What the driver reports of one adapter, as far as bring-up reads it.
#[derive(Debug, Clone)]
pub struct AdapterProperties {
    /// The driver's device type.
    pub device_type: i32,
    /// The vendor's device ID.
    pub device_id: u32,
    /// The PCI vendor ID.
    pub vendor_id: u32,
    /// The driver version, as the driver encodes it.
    pub driver_version: u32,
    /// The device name, or `None` when the driver's name field holds no
    /// readable string.
    pub name: Option<String>,
}

/// The selection key of an adapter: rank by kind first, then lowest
/// device ID, so selection is the same on every run of one machine.
pub open spec fn spec_key(device_type: i32, device_id: u32) -> (u8, u32) {
    (spec_rank(spec_adapter_kind(device_type)), device_id)
}

/// Classify one adapter and produce its selection key.
pub fn describe_adapter(properties: AdapterProperties) -> (r: (AdapterInfo, (u8, u32)))
    ensures
        r.0.name@ == (match properties.name {
            Some(n) => n@,
            None => UNNAMED_ADAPTER@,
        }),
        r.0.kind == spec_adapter_kind(properties.device_type),
        r.0.driver_version == properties.driver_version,
        r.0.vendor_id == properties.vendor_id,
        r.0.device_id == properties.device_id,
        r.1 == spec_key(properties.device_type, properties.device_id),
{
    let kind = adapter_kind(properties.device_type);
    let rank = adapter_rank(kind);
    let name = match properties.name {
        Some(n) => n,
        None => String::from_str(UNNAMED_ADAPTER),
    };
    let info = AdapterInfo {
        name,
        kind,
        driver_version: properties.driver_version,
        vendor_id: properties.vendor_id,
        device_id: properties.device_id,
    };
    (info, (rank, properties.device_id))
}

/// One enumerated adapter, as selection reads it.
#[derive(Debug, Clone)]
pub struct AdapterCandidate {
    /// The driver's device type.
    pub device_type: i32,
    /// The vendor's device ID.
    pub device_id: u32,
    /// The queue flags of each queue family, in family order.
    pub families: Vec<u32>,
    /// Whether dynamic rendering is supported.
    pub dynamic_rendering: bool,
    /// Whether synchronization2 is supported.
    pub synchronization2: bool,
}

/// The queue family a candidate would render on, if any.
pub open spec fn candidate_family(c: AdapterCandidate) -> Option<u32> {
    spec_graphics_family(c.families@, c.dynamic_rendering, c.synchronization2)
}

/// The key of a candidate.
pub open spec fn candidate_key(c: AdapterCandidate) -> (u8, u32) {
    spec_key(c.device_type, c.device_id)
}

/// `a` orders strictly before `b`.
pub open spec fn key_lt(a: (u8, u32), b: (u8, u32)) -> bool {
    a.0 < b.0 || (a.0 == b.0 && a.1 < b.1)
}

/// Whether `index` is the selected candidate: usable, no usable one
/// orders before it, and no earlier usable one ties with it (ties fall
/// to enumeration order).
pub open spec fn is_selected(candidates: Seq<AdapterCandidate>, index: int) -> bool {
    &&& 0 <= index < candidates.len()
    &&& candidate_family(candidates[index]) is Some
    &&& forall|j: int| 0 <= j < candidates.len() && candidate_family(#[trigger] candidates[j]) is Some
        ==> !key_lt(candidate_key(candidates[j]), candidate_key(candidates[index]))
    &&& forall|j: int| 0 <= j < index && candidate_family(#[trigger] candidates[j]) is Some
        ==> key_lt(candidate_key(candidates[index]), candidate_key(candidates[j]))
}

/// Pick the adapter: among those that meet the requirement, the one
/// with the least key, the first of equal keys. Answers its index and
/// the queue family it renders on.
pub fn select_adapter(candidates: &[AdapterCandidate]) -> (r: Result<(usize, u32), DeviceError>)
    ensures
        match r {
            Ok((index, family)) => is_selected(candidates@, index as int) && candidate_family(
                candidates@[index as int],
            ) == Some(family),
            Err(e) => e == (DeviceError::NoSuitableAdapter { requirement: ADAPTER_REQUIREMENT })
                && forall|j: int| 0 <= j < candidates@.len() ==> candidate_family(#[trigger] candidates@[j]) is None,
        },
{
    let mut best: Option<(usize, u32, (u8, u32))> = None;
    let mut i: usize = 0;
    while i < candidates.len()
        invariant
            i <= candidates@.len(),
            match best {
                None => forall|j: int| 0 <= j < i ==> candidate_family(#[trigger] candidates@[j]) is None,
                Some((b, family, key)) => {
                    &&& b < i
                    &&& candidate_family(candidates@[b as int]) == Some(family)
                    &&& key == candidate_key(candidates@[b as int])
                    &&& forall|j: int| 0 <= j < i && candidate_family(#[trigger] candidates@[j]) is Some
                        ==> !key_lt(candidate_key(candidates@[j]), key)
                    &&& forall|j: int| 0 <= j < b && candidate_family(#[trigger] candidates@[j]) is Some
                        ==> key_lt(key, candidate_key(candidates@[j]))
                },
            },
        decreases candidates@.len() - i,
    {
        let c = &candidates[i];
        let family = graphics_family(c.families.as_slice(), c.dynamic_rendering, c.synchronization2);
        match family {
            Some(f) => {
                let key = (adapter_rank(adapter_kind(c.device_type)), c.device_id);
                let better = match best {
                    None => true,
                    Some((_, _, k)) => key.0 < k.0 || (key.0 == k.0 && key.1 < k.1),
                };
                if better {
                    best = Some((i, f, key));
                }
            },
            None => {},
        }
        i = i + 1;
    }
    match best {
        Some((index, family, _)) => Ok((index, family)),
        None => Err(DeviceError::NoSuitableAdapter { requirement: ADAPTER_REQUIREMENT }),
    }
}

/// Driver host-allocation tallies, as a device reports them.
#[derive(Debug, Clone, Copy, PartialEq, Eq, Structural)]
pub struct HostAllocationStats {
    /// Allocations served.
    pub allocations: u64,
    /// Frees served.
    pub deallocations: u64,
    /// Reallocations that moved a live allocation.
    pub reallocations: u64,
    /// Bytes the driver holds now.
    pub bytes_in_use: usize,
    /// The most bytes the driver held at once.
    pub peak_bytes: usize,
}

} // verus!
