//! The offscreen target's rules: the extents it accepts, the size of its
//! readback, and its one piece of state beyond its images — whether an
//! earlier frame left submitted work that never provably finished. A
//! target in that state is wedged: it refuses every later frame and
//! every readback, because either would race work still in flight.

use vstd::prelude::*;

use crate::config::Extent;
use crate::device::{spec_target_call_error, target_call_error, PoisonFlag};
use crate::error::TargetError;
use crate::formats::{RESULT_ERROR_DEVICE_LOST, RESULT_TIMEOUT};

verus! {

/// What a wedged target answers every render with.
pub const WEDGED: &'static str = "target wedged by an earlier incomplete frame";

/// Whether the target's last submit provably finished.
#[derive(Debug)]
pub struct OffscreenState {
    wedged: bool,
}

impl View for OffscreenState {
    type V = bool;

    /// Whether the target is wedged.
    closed spec fn view(&self) -> bool {
        self.wedged
    }
}

impl OffscreenState {
    /// A fresh target: nothing in flight.
    pub fn new() -> (s: Self)
        ensures
            !s@,
    {
        OffscreenState { wedged: false }
    }

    /// Whether the target refuses further use.
    pub fn wedged(&self) -> (r: bool)
        ensures
            r == self@,
    {
        self.wedged
    }

    /// The guard at the top of a render call: a wedged target refuses
    /// first, then a lost device.
    pub fn render_guard(&self, poisoned: bool) -> (r: Result<(), TargetError>)
        ensures
            r == (if self@ {
                Err::<(), TargetError>(TargetError::Timeout { call: WEDGED })
            } else if poisoned {
                Err(TargetError::DeviceLost)
            } else {
                Ok(())
            }),
    {
        if self.wedged {
            Err(TargetError::Timeout { call: WEDGED })
        } else if poisoned {
            Err(TargetError::DeviceLost)
        } else {
            Ok(())
        }
    }

    /// The wait after the submit failed with `code`: the submitted work
    /// never provably finished, so the target wedges; the watchdog is
    /// reported by name, a lost device (noted on the poison) as such,
    /// anything else as a refused call.
    pub fn wait_failed(&mut self, poison: &mut PoisonFlag, code: i32) -> (e: TargetError)
        ensures
            final(self)@,
            code == RESULT_TIMEOUT ==> e == (TargetError::Timeout { call: "vkWaitForFences" })
                && final(poison)@ == old(poison)@,
            code != RESULT_TIMEOUT ==> e == spec_target_call_error("vkWaitForFences", code)
                && final(poison)@ == (old(poison)@ || code == RESULT_ERROR_DEVICE_LOST),
    {
        self.wedged = true;
        if code == RESULT_TIMEOUT {
            TargetError::Timeout { call: "vkWaitForFences" }
        } else {
            target_call_error(poison, "vkWaitForFences", code)
        }
    }

    /// The fence reset after a finished wait failed with `code`: the
    /// fence's state is unknown, so the target wedges.
    pub fn reset_failed(&mut self, code: i32) -> (e: TargetError)
        ensures
            final(self)@,
            e == crate::device::spec_target_creation("vkResetFences", code),
    {
        self.wedged = true;
        crate::device::target_creation("vkResetFences", code)
    }

    /// Whether a readback into `out_len` bytes may run: never from a
    /// wedged target, and only into a buffer of exactly the readback
    /// length.
    pub fn readback_allowed(&self, out_len: usize, byte_len: usize) -> (r: bool)
        ensures
            r == (!self@ && out_len == byte_len),
    {
        !self.wedged && out_len == byte_len
    }

    /// The read-back step: how many bytes a read-back copies into a
    /// buffer of `out_len` bytes — all of them, the whole image. A
    /// wedged target, or a buffer of another length than `byte_len`, is
    /// a contract violation the precondition excludes.
    pub fn readback_copy_len(&self, out_len: usize, byte_len: usize) -> (n: usize)
        requires
            !self@,
            out_len == byte_len,
        ensures
            n == out_len,
            n == byte_len,
    {
        out_len
    }
}

/// Which extent rule an offscreen target breaks, if any.
pub open spec fn offscreen_extent_refusal(extent: Extent, max_dimension: u32) -> Option<&'static str> {
    if extent.width == 0 || extent.height == 0 {
        Some("create_offscreen_target(zero extent)")
    } else if extent.width > max_dimension || extent.height > max_dimension {
        Some("create_offscreen_target(extent exceeds the device limit)")
    } else {
        None
    }
}

/// An offscreen extent is accepted exactly when it is non-empty and
/// within the device limit in both dimensions.
pub proof fn lemma_offscreen_extent_fits(extent: Extent, max_dimension: u32)
    ensures
        offscreen_extent_refusal(extent, max_dimension) is None <==> (0 < extent.width <= max_dimension && 0
            < extent.height <= max_dimension),
{
}

/// Refuse a zero or over-limit offscreen extent, by name. The limit
/// itself is allowed.
pub fn check_extent(extent: Extent, max_dimension: u32) -> (r: Result<(), TargetError>)
    ensures
        match offscreen_extent_refusal(extent, max_dimension) {
            None => r is Ok,
            Some(call) => r == Err::<(), TargetError>(TargetError::Creation { call, code: 0 }),
        },
{
    if extent.width == 0 || extent.height == 0 {
        return Err(TargetError::Creation { call: "create_offscreen_target(zero extent)", code: 0 });
    }
    if extent.width > max_dimension || extent.height > max_dimension {
        return Err(TargetError::Creation {
            call: "create_offscreen_target(extent exceeds the device limit)",
            code: 0,
        });
    }
    Ok(())
}

/// The size of one full RGBA8 readback of `extent`, saturating at
/// `usize::MAX` on a target too small to address it.
pub fn readback_len(extent: Extent) -> (n: usize)
    ensures
        extent.width * extent.height * 4 <= usize::MAX ==> n == extent.width * extent.height * 4,
        extent.width * extent.height * 4 > usize::MAX ==> n == usize::MAX,
{
    let width = extent.width as u64;
    let height = extent.height as u64;
    proof {
        assert(width * height <= u32::MAX as int * u32::MAX as int) by (nonlinear_arith)
            requires width <= u32::MAX, height <= u32::MAX;
    }
    let pixels = width * height;
    if pixels > u64::MAX / 4 {
        return usize::MAX;
    }
    let bytes = pixels * 4;
    if bytes > usize::MAX as u64 {
        usize::MAX
    } else {
        bytes as usize
    }
}

} // verus!
