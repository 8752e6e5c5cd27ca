//! The error vocabulary: each refusal names the rule or the Vulkan call
//! behind it, so a caller learns which one rather than that something
//! failed.

use vstd::prelude::*;

verus! {

/// Why a target or a resource could not be created or used.
#[derive(Debug, Clone, Copy, PartialEq, Eq)]
pub enum TargetError {
    /// A creation step refused: a malformed request, named by the rule it
    /// broke (with code zero), or a driver call, with its result code.
    Creation {
        /// The rule or the Vulkan call.
        call: &'static str,
        /// The driver's raw result code; zero when no driver answered.
        code: i32,
    },
    /// An allocation failed for want of device memory.
    OutOfDeviceMemory {
        /// The Vulkan call that refused.
        call: &'static str,
    },
    /// The device was lost, now or earlier.
    DeviceLost,
    /// The GPU did not finish within the watchdog.
    Timeout {
        /// The call that waited.
        call: &'static str,
    },
    /// Depth was asked for and the adapter offers no depth format.
    DepthUnsupported {
        /// The formats that were tried.
        chain: &'static str,
    },
    /// The device cannot present to the surface.
    PresentUnsupported {
        /// Why not.
        reason: &'static str,
    },
    /// The surface itself could not be created.
    SurfaceCreation {
        /// The driver's raw result code; zero when no driver answered.
        code: i32,
    },
}

/// Why device bring-up or a device-wide call failed.
#[derive(Debug, Clone, PartialEq, Eq)]
pub enum DeviceError {
    /// No Vulkan runtime could be loaded; the loader's own words.
    LoaderUnavailable {
        /// What the loader said.
        message: String,
    },
    /// Validation was required and the layer is not installed.
    ValidationUnavailable,
    /// A call ran out of host memory.
    OutOfHostMemory {
        /// The Vulkan call that refused.
        call: &'static str,
    },
    /// A creation call refused.
    Creation {
        /// The Vulkan call.
        call: &'static str,
        /// Its raw result code.
        code: i32,
    },
    /// No adapter meets the requirement.
    NoSuitableAdapter {
        /// What was required.
        requirement: &'static str,
    },
    /// The device was lost.
    DeviceLost,
}

/// Why a pipeline, sampler or binding could not be built.
#[derive(Debug, Clone, Copy, PartialEq, Eq)]
pub enum PipelineError {
    /// A creation call refused.
    Creation {
        /// The Vulkan call.
        call: &'static str,
        /// Its raw result code.
        code: i32,
    },
    /// Depth state was asked for and the adapter offers no depth format.
    DepthUnsupported {
        /// The formats that were tried.
        chain: &'static str,
    },
    /// A shader stage's bytes failed the SPIR-V structural checks.
    InvalidSpirv {
        /// The stage whose bytes were refused.
        stage: &'static str,
    },
}

} // verus!
