//! The window target's decisions: which surface format to present in,
//! how a swapchain is sized against what the surface reports, and the
//! frame ring's bookkeeping — which slot records next, which slots have
//! a submit outstanding, whether a chain is live, and when the target
//! parks dormant. The driver calls themselves stay at the edge; each
//! answer they give is handed back here.

use vstd::prelude::*;

use crate::buffer::MAX_FRAME_SLOTS;
use crate::config::{Extent, SurfaceTransform};
use crate::device::{target_call_error, PoisonFlag};
use crate::error::TargetError;
use crate::formats::{
    spec_contains, contains, COLOR_SPACE_SRGB_NONLINEAR, FORMAT_B8G8R8A8_SRGB, FORMAT_R8G8B8A8_SRGB,
    RESULT_ERROR_DEVICE_LOST, RESULT_ERROR_OUT_OF_DATE, RESULT_NOT_READY, RESULT_SUBOPTIMAL,
    RESULT_SUCCESS, RESULT_TIMEOUT,
};
use crate::pipeline::{TargetFormat, CHAIN_NAMES};

verus! {

/// How many frames the CPU may have submitted and not yet waited for —
/// chosen here, not by the driver, and not the swapchain image count.
pub const FRAMES_IN_FLIGHT: usize = 2;

/// `VK_SURFACE_TRANSFORM_ROTATE_90_BIT_KHR`.
pub const TRANSFORM_ROTATE_90: u32 = 0x2;
/// `VK_SURFACE_TRANSFORM_ROTATE_180_BIT_KHR`.
pub const TRANSFORM_ROTATE_180: u32 = 0x4;
/// `VK_SURFACE_TRANSFORM_ROTATE_270_BIT_KHR`.
pub const TRANSFORM_ROTATE_270: u32 = 0x8;

/// `VK_COMPOSITE_ALPHA_OPAQUE_BIT_KHR`.
pub const COMPOSITE_ALPHA_OPAQUE: u32 = 0x1;
/// `VK_COMPOSITE_ALPHA_PRE_MULTIPLIED_BIT_KHR`.
pub const COMPOSITE_ALPHA_PRE_MULTIPLIED: u32 = 0x2;
/// `VK_COMPOSITE_ALPHA_POST_MULTIPLIED_BIT_KHR`.
pub const COMPOSITE_ALPHA_POST_MULTIPLIED: u32 = 0x4;
/// `VK_COMPOSITE_ALPHA_INHERIT_BIT_KHR`.
pub const COMPOSITE_ALPHA_INHERIT: u32 = 0x8;

/// The current-extent value by which a surface says "you choose, within
/// bounds".
pub const EXTENT_UNDEFINED: u32 = 0xFFFF_FFFF;

/// The ring is never deeper than the per-frame buffers it indexes: slot
/// `i` of the ring writes region `i` of every per-frame buffer.
pub proof fn lemma_ring_fits_the_buffers()
    ensures
        FRAMES_IN_FLIGHT <= MAX_FRAME_SLOTS,
{
}

/// The engine's spelling of a reported surface transform: the four
/// rotations by name, and everything a renderer cannot fold (mirrors,
/// inherit) as the identity.
pub open spec fn spec_transform(transform: u32) -> SurfaceTransform {
    if transform == TRANSFORM_ROTATE_90 {
        SurfaceTransform::Rotate90
    } else if transform == TRANSFORM_ROTATE_180 {
        SurfaceTransform::Rotate180
    } else if transform == TRANSFORM_ROTATE_270 {
        SurfaceTransform::Rotate270
    } else {
        SurfaceTransform::Identity
    }
}

/// The engine's spelling of a reported surface transform.
pub fn from_vk_transform(transform: u32) -> (t: SurfaceTransform)
    ensures
        t == spec_transform(transform),
{
    if transform == TRANSFORM_ROTATE_90 {
        SurfaceTransform::Rotate90
    } else if transform == TRANSFORM_ROTATE_180 {
        SurfaceTransform::Rotate180
    } else if transform == TRANSFORM_ROTATE_270 {
        SurfaceTransform::Rotate270
    } else {
        SurfaceTransform::Identity
    }
}

/// What a render call did.
#[derive(Debug, Clone, Copy, PartialEq, Eq, Structural)]
pub enum PresentOutcome {
    /// The frame is on its way to the screen.
    Presented,
    /// The swapchain no longer matches the surface, or the target is
    /// dormant: resize with the current size. Nothing was presented.
    NeedsResize,
}

/// One format a surface offers.
#[derive(Debug, Clone, Copy, PartialEq, Eq, Structural)]
pub struct SurfaceFormat {
    /// The Vulkan format.
    pub format: i32,
    /// The Vulkan colour space.
    pub color_space: i32,
}

/// Whether the surface offers `format` in the sRGB non-linear space.
pub open spec fn offered(formats: Seq<SurfaceFormat>, format: i32) -> bool {
    exists|i: int| 0 <= i < formats.len() && #[trigger] formats[i] == (SurfaceFormat {
        format,
        color_space: COLOR_SPACE_SRGB_NONLINEAR,
    })
}

fn find_format(formats: &[SurfaceFormat], format: i32) -> (r: bool)
    ensures
        r == offered(formats@, format),
{
    let mut i: usize = 0;
    while i < formats.len()
        invariant
            i <= formats@.len(),
            forall|j: int| 0 <= j < i ==> formats@[j] != (SurfaceFormat {
                format,
                color_space: COLOR_SPACE_SRGB_NONLINEAR,
            }),
        decreases formats@.len() - i,
    {
        let f = formats[i];
        if f.format == format && f.color_space == COLOR_SPACE_SRGB_NONLINEAR {
            assert(formats@[i as int] == (SurfaceFormat { format, color_space: COLOR_SPACE_SRGB_NONLINEAR }));
            return true;
        }
        i = i + 1;
    }
    false
}

/// Pick the surface format to present in: 8-bit BGRA sRGB first (what
/// desktop compositors report first), then RGBA, both in the sRGB
/// non-linear space; anything else is refused rather than drawn into
/// wrongly.
pub fn choose_surface_format(formats: &[SurfaceFormat]) -> (r: Option<(SurfaceFormat, TargetFormat)>)
    ensures
        r == (if offered(formats@, FORMAT_B8G8R8A8_SRGB) {
            Some((SurfaceFormat { format: FORMAT_B8G8R8A8_SRGB, color_space: COLOR_SPACE_SRGB_NONLINEAR }, TargetFormat::Bgra8Srgb))
        } else if offered(formats@, FORMAT_R8G8B8A8_SRGB) {
            Some((SurfaceFormat { format: FORMAT_R8G8B8A8_SRGB, color_space: COLOR_SPACE_SRGB_NONLINEAR }, TargetFormat::Rgba8Srgb))
        } else {
            None
        }),
{
    if find_format(formats, FORMAT_B8G8R8A8_SRGB) {
        Some((SurfaceFormat { format: FORMAT_B8G8R8A8_SRGB, color_space: COLOR_SPACE_SRGB_NONLINEAR }, TargetFormat::Bgra8Srgb))
    } else if find_format(formats, FORMAT_R8G8B8A8_SRGB) {
        Some((SurfaceFormat { format: FORMAT_R8G8B8A8_SRGB, color_space: COLOR_SPACE_SRGB_NONLINEAR }, TargetFormat::Rgba8Srgb))
    } else {
        None
    }
}

/// What a surface reports of itself when a swapchain is built.
#[derive(Debug, Clone, Copy, PartialEq, Eq, Structural)]
pub struct SurfaceCaps {
    /// The fewest images a swapchain may have.
    pub min_image_count: u32,
    /// The most images, or zero for no limit.
    pub max_image_count: u32,
    /// The surface's size, or [`EXTENT_UNDEFINED`] wide when the
    /// swapchain chooses.
    pub current_extent: Extent,
    /// The smallest extent a swapchain may have.
    pub min_image_extent: Extent,
    /// The largest extent a swapchain may have.
    pub max_image_extent: Extent,
    /// The composite-alpha modes supported.
    pub supported_composite_alpha: u32,
    /// The transform the surface currently applies.
    pub current_transform: u32,
}

/// `value` clamped to `[low, high]`.
pub open spec fn clamp(value: u32, low: u32, high: u32) -> u32 {
    if value < low { low } else if value > high { high } else { value }
}

/// Whether the caps can be clamped against: when the swapchain chooses
/// the extent, the surface's bounds are ordered.
pub open spec fn caps_ordered(caps: SurfaceCaps) -> bool {
    caps.current_extent.width == EXTENT_UNDEFINED ==> caps.min_image_extent.width <= caps.max_image_extent.width
        && caps.min_image_extent.height <= caps.max_image_extent.height
}

/// Whether the caps can be clamped against.
pub fn bounds_ordered(caps: SurfaceCaps) -> (r: bool)
    ensures
        r == caps_ordered(caps),
{
    caps.current_extent.width != EXTENT_UNDEFINED || (caps.min_image_extent.width <= caps.max_image_extent.width
        && caps.min_image_extent.height <= caps.max_image_extent.height)
}

/// The swapchain extent: the surface's own when it reports one, the
/// requested one clamped to its bounds when it leaves the choice open.
pub open spec fn spec_chosen_extent(caps: SurfaceCaps, requested: Extent) -> Extent {
    if caps.current_extent.width == EXTENT_UNDEFINED {
        Extent {
            width: clamp(requested.width, caps.min_image_extent.width, caps.max_image_extent.width),
            height: clamp(requested.height, caps.min_image_extent.height, caps.max_image_extent.height),
        }
    } else {
        caps.current_extent
    }
}

/// The image count asked for: one more than the minimum (saturating),
/// capped at the maximum when the surface has one.
pub open spec fn spec_image_count(caps: SurfaceCaps) -> u32 {
    let wanted = if caps.min_image_count == u32::MAX { u32::MAX } else { (caps.min_image_count + 1) as u32 };
    if caps.max_image_count > 0 && caps.max_image_count < wanted { caps.max_image_count } else { wanted }
}

/// The composite-alpha mode: the first supported of opaque,
/// pre-multiplied, post-multiplied and inherit; opaque when none is.
pub open spec fn spec_composite_alpha(supported: u32) -> u32 {
    if spec_contains(supported, COMPOSITE_ALPHA_OPAQUE) {
        COMPOSITE_ALPHA_OPAQUE
    } else if spec_contains(supported, COMPOSITE_ALPHA_PRE_MULTIPLIED) {
        COMPOSITE_ALPHA_PRE_MULTIPLIED
    } else if spec_contains(supported, COMPOSITE_ALPHA_POST_MULTIPLIED) {
        COMPOSITE_ALPHA_POST_MULTIPLIED
    } else if spec_contains(supported, COMPOSITE_ALPHA_INHERIT) {
        COMPOSITE_ALPHA_INHERIT
    } else {
        COMPOSITE_ALPHA_OPAQUE
    }
}

/// How one swapchain is built.
#[derive(Debug, Clone, Copy, PartialEq, Eq, Structural)]
pub struct ChainPlan {
    /// Its extent.
    pub extent: Extent,
    /// The image count asked for.
    pub image_count: u32,
    /// The composite-alpha mode.
    pub composite_alpha: u32,
    /// The transform it declares, as a renderer folds it.
    pub transform: SurfaceTransform,
}

/// The plan for a swapchain over `caps` at the requested size, or `None`
/// when the surface is currently unrenderable (a zero extent, as while
/// minimizing): the target then stays dormant.
pub open spec fn spec_plan_chain(caps: SurfaceCaps, requested: Extent) -> Option<ChainPlan> {
    let extent = spec_chosen_extent(caps, requested);
    if extent.width == 0 || extent.height == 0 {
        None
    } else {
        Some(ChainPlan {
            extent,
            image_count: spec_image_count(caps),
            composite_alpha: spec_composite_alpha(caps.supported_composite_alpha),
            transform: spec_transform(caps.current_transform),
        })
    }
}

/// A planned swapchain asks for one image more than the surface's
/// minimum (saturating) — enough to keep a frame in flight while another
/// is presented — and never more than the surface's maximum when it has
/// one: the count is the smaller of the two, or the spare count alone
/// when the surface sets no maximum.
pub proof fn lemma_chain_asks_one_spare_image(caps: SurfaceCaps, requested: Extent)
    requires
        spec_plan_chain(caps, requested) is Some,
    ensures
        ({
            let count = spec_plan_chain(caps, requested)->0.image_count as int;
            let spare: int = if caps.min_image_count == u32::MAX {
                u32::MAX as int
            } else {
                caps.min_image_count + 1
            };
            &&& count <= spare
            &&& caps.max_image_count == 0 ==> count == spare
            &&& caps.max_image_count > 0 ==> count <= caps.max_image_count
            &&& caps.max_image_count > 0 ==> (count == spare || count == caps.max_image_count)
        }),
{
}

/// A planned swapchain is as large as the surface says when it reports
/// its size, and otherwise the requested size pulled into the surface's
/// bounds; either way it is never empty.
pub proof fn lemma_chain_extent_within_bounds(caps: SurfaceCaps, requested: Extent)
    requires
        caps_ordered(caps),
        spec_plan_chain(caps, requested) is Some,
    ensures
        ({
            let extent = spec_plan_chain(caps, requested)->0.extent;
            &&& extent.width > 0 && extent.height > 0
            &&& caps.current_extent.width != EXTENT_UNDEFINED ==> extent == caps.current_extent
            &&& caps.current_extent.width == EXTENT_UNDEFINED ==> {
                &&& caps.min_image_extent.width <= extent.width <= caps.max_image_extent.width
                &&& caps.min_image_extent.height <= extent.height <= caps.max_image_extent.height
                &&& (caps.min_image_extent.width <= requested.width <= caps.max_image_extent.width
                    ==> extent.width == requested.width)
                &&& (caps.min_image_extent.height <= requested.height <= caps.max_image_extent.height
                    ==> extent.height == requested.height)
            }
        }),
{
}

/// A planned swapchain's composite alpha is a mode the surface supports,
/// opaque whenever it is supported; only a surface that supports none of
/// the four gets opaque unasked.
pub proof fn lemma_chain_alpha_is_supported(caps: SurfaceCaps, requested: Extent)
    requires
        spec_plan_chain(caps, requested) is Some,
    ensures
        ({
            let alpha = spec_plan_chain(caps, requested)->0.composite_alpha;
            let supported = caps.supported_composite_alpha;
            &&& spec_contains(supported, COMPOSITE_ALPHA_OPAQUE) ==> alpha == COMPOSITE_ALPHA_OPAQUE
            &&& (spec_contains(supported, COMPOSITE_ALPHA_OPAQUE) || spec_contains(supported, COMPOSITE_ALPHA_PRE_MULTIPLIED)
                || spec_contains(supported, COMPOSITE_ALPHA_POST_MULTIPLIED) || spec_contains(supported, COMPOSITE_ALPHA_INHERIT))
                ==> spec_contains(supported, alpha)
        }),
{
}

fn clamp_u32(value: u32, low: u32, high: u32) -> (r: u32)
    requires
        low <= high,
    ensures
        r == clamp(value, low, high),
{
    if value < low {
        low
    } else if value > high {
        high
    } else {
        value
    }
}

/// Plan the swapchain for `requested` against what the surface reports.
pub fn plan_chain(caps: SurfaceCaps, requested: Extent) -> (r: Option<ChainPlan>)
    requires
        caps_ordered(caps),
    ensures
        r == spec_plan_chain(caps, requested),
{
    let extent = if caps.current_extent.width == EXTENT_UNDEFINED {
        Extent {
            width: clamp_u32(requested.width, caps.min_image_extent.width, caps.max_image_extent.width),
            height: clamp_u32(requested.height, caps.min_image_extent.height, caps.max_image_extent.height),
        }
    } else {
        caps.current_extent
    };
    if extent.width == 0 || extent.height == 0 {
        return None;
    }
    let mut image_count = caps.min_image_count.saturating_add(1);
    if caps.max_image_count > 0 && caps.max_image_count < image_count {
        image_count = caps.max_image_count;
    }
    let supported = caps.supported_composite_alpha;
    let composite_alpha = if contains(supported, COMPOSITE_ALPHA_OPAQUE) {
        COMPOSITE_ALPHA_OPAQUE
    } else if contains(supported, COMPOSITE_ALPHA_PRE_MULTIPLIED) {
        COMPOSITE_ALPHA_PRE_MULTIPLIED
    } else if contains(supported, COMPOSITE_ALPHA_POST_MULTIPLIED) {
        COMPOSITE_ALPHA_POST_MULTIPLIED
    } else if contains(supported, COMPOSITE_ALPHA_INHERIT) {
        COMPOSITE_ALPHA_INHERIT
    } else {
        COMPOSITE_ALPHA_OPAQUE
    };
    Some(ChainPlan { extent, image_count, composite_alpha, transform: from_vk_transform(caps.current_transform) })
}

/// What a live chain tells the caller about itself.
#[derive(Debug, Clone, Copy, PartialEq, Eq, Structural)]
pub struct ChainInfo {
    /// Its extent.
    pub extent: Extent,
    /// The transform it declares.
    pub transform: SurfaceTransform,
}

/// The zero extent a dormant target reports.
pub open spec fn zero_extent() -> Extent {
    Extent { width: 0, height: 0 }
}

/// What a frame ring holds, as the contracts read it.
pub struct RingView {
    /// The slot the next frame records into.
    pub slot: int,
    /// Which slots have a submit outstanding.
    pub pending: Seq<bool>,
    /// Whether the ring is parked.
    pub dormant: bool,
    /// The live chain, if any.
    pub chain: Option<ChainInfo>,
}

/// A ring's shape: two slots, the next one among them.
pub open spec fn ring_wf(v: RingView) -> bool {
    0 <= v.slot < FRAMES_IN_FLIGHT && v.pending.len() == FRAMES_IN_FLIGHT
}

/// Nothing pending on either slot.
pub open spec fn no_pending() -> Seq<bool> {
    seq![false, false]
}

/// A fresh ring.
pub open spec fn ring_new() -> RingView {
    RingView { slot: 0, pending: no_pending(), dormant: false, chain: None }
}

/// The guard at the top of a render call.
pub open spec fn ring_render_guard(v: RingView, poisoned: bool) -> Result<Option<PresentOutcome>, TargetError> {
    if poisoned {
        Err(TargetError::DeviceLost)
    } else if v.dormant {
        Ok(Some(PresentOutcome::NeedsResize))
    } else {
        Ok(None)
    }
}

/// Whether the next frame's slot must wait for its fence first.
pub open spec fn ring_must_wait(v: RingView) -> bool {
    v.pending[v.slot]
}

/// The guard after the fence wait: without a chain there is nothing to
/// acquire, and the frame answers "resize".
pub open spec fn ring_chain_guard(v: RingView) -> Option<PresentOutcome> {
    match v.chain {
        None => Some(PresentOutcome::NeedsResize),
        Some(_) => None,
    }
}

/// The drawable size: zero while dormant or without a chain.
pub open spec fn ring_extent(v: RingView) -> Extent {
    if v.dormant {
        zero_extent()
    } else {
        match v.chain {
            Some(c) => c.extent,
            None => zero_extent(),
        }
    }
}

/// The slot's fence was waited and reset.
pub open spec fn ring_fence_cleared(v: RingView) -> RingView {
    RingView { pending: v.pending.update(v.slot, false), ..v }
}

/// A frame was submitted from the current slot.
pub open spec fn ring_submitted(v: RingView) -> RingView {
    RingView { slot: FrameRing::next_slot(v.slot), pending: v.pending.update(v.slot, true), ..v }
}

/// A mid-frame failure whose quiesce answered `idle_result`.
pub open spec fn ring_abort(v: RingView, idle_result: i32) -> RingView {
    if idle_result == RESULT_SUCCESS || idle_result == RESULT_ERROR_DEVICE_LOST {
        RingView { pending: no_pending(), chain: None, ..v }
    } else {
        RingView { dormant: true, ..v }
    }
}

/// A resize after its proven quiesce.
pub open spec fn ring_resize(v: RingView) -> RingView {
    RingView { pending: no_pending(), chain: None, dormant: false, ..v }
}

/// A teardown.
pub open spec fn ring_teardown(v: RingView) -> RingView {
    RingView { pending: no_pending(), chain: None, ..v }
}

/// A chain built to `plan`.
pub open spec fn ring_chain_built(v: RingView, plan: ChainPlan) -> RingView {
    RingView { chain: Some(ChainInfo { extent: plan.extent, transform: plan.transform }), ..v }
}

/// The frame ring's bookkeeping.
///
/// The invariant at every boundary: a slot with nothing pending has an
/// unsignaled fence and no outstanding work. A dormant ring has parked
/// after a quiesce it could not prove: its pending flags and chain stay
/// exactly as they were until a resize's proven quiesce.
pub struct FrameRing {
    pending: [bool; 2],
    frame: usize,
    dormant: bool,
    chain: Option<ChainInfo>,
}

impl View for FrameRing {
    type V = RingView;

    closed spec fn view(&self) -> RingView {
        RingView { slot: self.frame as int, pending: self.pending@, dormant: self.dormant, chain: self.chain }
    }
}

impl FrameRing {
    #[verifier::type_invariant]
    closed spec fn slot_in_ring(self) -> bool {
        self.frame < FRAMES_IN_FLIGHT
    }

    /// The slot the next frame records into.
    pub closed spec fn slot(&self) -> int {
        self.frame as int
    }

    /// Whether slot `i` has a submit outstanding.
    pub closed spec fn is_pending(&self, i: int) -> bool {
        self.pending@[i]
    }

    /// Whether the ring is parked.
    pub closed spec fn is_dormant(&self) -> bool {
        self.dormant
    }

    /// The live chain, if any.
    pub closed spec fn live_chain(&self) -> Option<ChainInfo> {
        self.chain
    }

    /// The slot after `slot`, round the ring.
    pub open spec fn next_slot(slot: int) -> int {
        (slot + 1) % (FRAMES_IN_FLIGHT as int)
    }

    /// A fresh ring: slot zero next, nothing pending, not parked, no
    /// chain yet.
    pub fn new() -> (r: Self)
        ensures
            r.slot() == 0,
            !r.is_pending(0) && !r.is_pending(1),
            !r.is_dormant(),
            r.live_chain() is None,
            r@ == ring_new(),
    {
        let r = FrameRing { pending: [false, false], frame: 0, dormant: false, chain: None };
        assert(r@.pending =~= no_pending());
        r
    }

    /// How many frames may be in flight at once: how many copies a
    /// double-buffering caller keeps.
    pub fn frames_in_flight(&self) -> (n: usize)
        ensures
            n == FRAMES_IN_FLIGHT,
    {
        FRAMES_IN_FLIGHT
    }

    /// Which slot the next frame uses, in `0..frames_in_flight()`.
    pub fn frame_slot(&self) -> (s: usize)
        ensures
            s == self.slot(),
            s < FRAMES_IN_FLIGHT,
            s == self@.slot,
            ring_wf(self@),
    {
        proof { use_type_invariant(self); }
        self.frame
    }

    /// Whether the ring is parked.
    pub fn dormant(&self) -> (r: bool)
        ensures
            r == self.is_dormant(),
    {
        self.dormant
    }

    /// The live chain, if any, as the record path reads it.
    pub fn chain(&self) -> (c: Option<ChainInfo>)
        ensures
            c == self.live_chain(),
    {
        self.chain
    }

    /// The current drawable size: zero while dormant or without a chain.
    pub fn extent(&self) -> (e: Extent)
        ensures
            e == (if self.is_dormant() {
                zero_extent()
            } else {
                match self.live_chain() {
                    Some(c) => c.extent,
                    None => zero_extent(),
                }
            }),
            e == ring_extent(self@),
    {
        if self.dormant {
            return Extent { width: 0, height: 0 };
        }
        match self.chain {
            Some(c) => c.extent,
            None => Extent { width: 0, height: 0 },
        }
    }

    /// The rotation the swapchain declares: the identity while dormant
    /// or without a chain.
    pub fn transform(&self) -> (t: SurfaceTransform)
        ensures
            t == (if self.is_dormant() {
                SurfaceTransform::Identity
            } else {
                match self.live_chain() {
                    Some(c) => c.transform,
                    None => SurfaceTransform::Identity,
                }
            }),
    {
        if self.dormant {
            return SurfaceTransform::Identity;
        }
        match self.chain {
            Some(c) => c.transform,
            None => SurfaceTransform::Identity,
        }
    }

    /// The guard at the top of a render call, before any fence is waited
    /// or written: a lost device fails; a parked ring answers
    /// "resize" without touching anything; otherwise the frame goes on
    /// (`None`).
    pub fn render_guard(&self, poisoned: bool) -> (r: Result<Option<PresentOutcome>, TargetError>)
        ensures
            r == (if poisoned {
                Err::<Option<PresentOutcome>, TargetError>(TargetError::DeviceLost)
            } else if self.is_dormant() {
                Ok(Some(PresentOutcome::NeedsResize))
            } else {
                Ok(None)
            }),
            r == ring_render_guard(self@, poisoned),
    {
        if poisoned {
            Err(TargetError::DeviceLost)
        } else if self.dormant {
            Ok(Some(PresentOutcome::NeedsResize))
        } else {
            Ok(None)
        }
    }

    /// Whether the next frame's slot must wait for its fence first.
    pub fn must_wait(&self) -> (r: bool)
        ensures
            r == self.is_pending(self.slot()),
            r == ring_must_wait(self@),
    {
        proof { use_type_invariant(self); }
        self.pending[self.frame]
    }

    /// The guard after the fence wait, before anything is acquired: a
    /// ring without a live chain — a zero-extent resize, or a chain torn
    /// down after a failure — has nothing to acquire from, and answers
    /// "resize" (`Some`); otherwise the frame goes on (`None`).
    pub fn chain_guard(&self) -> (r: Option<PresentOutcome>)
        ensures
            r == ring_chain_guard(self@),
            r == (if self.live_chain() is None { Some(PresentOutcome::NeedsResize) } else { None }),
    {
        match self.chain {
            None => Some(PresentOutcome::NeedsResize),
            Some(_) => None,
        }
    }

    /// The slot's fence was waited and reset: nothing is pending on it.
    pub fn fence_cleared(&mut self)
        ensures
            final(self).slot() == old(self).slot(),
            !final(self).is_pending(old(self).slot()),
            forall|i: int| 0 <= i < FRAMES_IN_FLIGHT && i != old(self).slot() ==> final(self).is_pending(i)
                == old(self).is_pending(i),
            final(self).is_dormant() == old(self).is_dormant(),
            final(self).live_chain() == old(self).live_chain(),
            final(self)@ == ring_fence_cleared(old(self)@),
    {
        proof { use_type_invariant(&*self); }
        let f = self.frame;
        self.pending[f] = false;
        assert(self@.pending =~= old(self)@.pending.update(f as int, false));
    }

    /// The frame was submitted: its slot now has work outstanding, and
    /// the next frame records into the next slot round the ring. Called
    /// only after a successful submit, so a failed one spends no slot.
    pub fn submitted(&mut self)
        ensures
            final(self).slot() == Self::next_slot(old(self).slot()),
            final(self).is_pending(old(self).slot()),
            forall|i: int| 0 <= i < FRAMES_IN_FLIGHT && i != old(self).slot() ==> final(self).is_pending(i)
                == old(self).is_pending(i),
            final(self).is_dormant() == old(self).is_dormant(),
            final(self).live_chain() == old(self).live_chain(),
            final(self)@ == ring_submitted(old(self)@),
    {
        proof { use_type_invariant(&*self); }
        let f = self.frame;
        self.pending[f] = true;
        self.frame = (f + 1) % FRAMES_IN_FLIGHT;
        assert(self@.pending =~= old(self)@.pending.update(f as int, true));
    }

    /// After a proven quiesce: every pending slot is retired. Answers
    /// which slots were pending, whose fences the edge resets.
    fn retire_after_idle(&mut self) -> (was: [bool; 2])
        ensures
            was@ == old(self).pending@,
            !final(self).is_pending(0) && !final(self).is_pending(1),
            final(self).slot() == old(self).slot(),
            final(self).is_dormant() == old(self).is_dormant(),
            final(self).live_chain() == old(self).live_chain(),
    {
        proof { use_type_invariant(&*self); }
        let was = self.pending;
        self.pending = [false, false];
        was
    }

    /// A mid-frame failure: the edge quiesced with `idle_result`. A
    /// successful quiesce, or a lost device (which ends execution as
    /// finally), proves the work ended: every pending slot is retired
    /// and the chain is torn down — the answer is the slots whose fences
    /// the edge resets. Anything else proves nothing: the ring parks
    /// dormant and touches nothing else (`None`).
    pub fn abort(&mut self, poison: &mut PoisonFlag, idle_result: i32) -> (r: Option<[bool; 2]>)
        ensures
            final(poison)@ == (old(poison)@ || idle_result == RESULT_ERROR_DEVICE_LOST),
            final(self).slot() == old(self).slot(),
            (idle_result == RESULT_SUCCESS || idle_result == RESULT_ERROR_DEVICE_LOST) ==> {
                &&& r matches Some(was) && was@ == seq![old(self).is_pending(0), old(self).is_pending(1)]
                &&& !final(self).is_pending(0) && !final(self).is_pending(1)
                &&& final(self).live_chain() is None
                &&& final(self).is_dormant() == old(self).is_dormant()
            },
            !(idle_result == RESULT_SUCCESS || idle_result == RESULT_ERROR_DEVICE_LOST) ==> {
                &&& r is None
                &&& final(self).is_dormant()
                &&& final(self).is_pending(0) == old(self).is_pending(0)
                &&& final(self).is_pending(1) == old(self).is_pending(1)
                &&& final(self).live_chain() == old(self).live_chain()
            },
            final(self)@ == ring_abort(old(self)@, idle_result),
    {
        proof { use_type_invariant(&*self); }
        poison.note(idle_result);
        if idle_result == RESULT_SUCCESS || idle_result == RESULT_ERROR_DEVICE_LOST {
            let was = self.retire_after_idle();
            proof { use_type_invariant(&*self); }
            self.chain = None;
            assert(was@ =~= seq![old(self).pending@[0], old(self).pending@[1]]);
            assert(self@.pending =~= no_pending());
            Some(was)
        } else {
            self.dormant = true;
            None
        }
    }

    /// A resize after its proven quiesce: every pending slot is retired,
    /// the old chain is gone, and the ring is thawed — the one way out
    /// of dormancy. Answers the slots whose fences the edge resets.
    pub fn resize_after_idle(&mut self) -> (was: [bool; 2])
        ensures
            was@ == seq![old(self).is_pending(0), old(self).is_pending(1)],
            !final(self).is_pending(0) && !final(self).is_pending(1),
            final(self).live_chain() is None,
            !final(self).is_dormant(),
            final(self).slot() == old(self).slot(),
            final(self)@ == ring_resize(old(self)@),
    {
        let was = self.retire_after_idle();
        proof { use_type_invariant(&*self); }
        self.chain = None;
        self.dormant = false;
        assert(was@ =~= seq![old(self).pending@[0], old(self).pending@[1]]);
        assert(self@.pending =~= no_pending());
        was
    }

    /// A target torn down: every pending slot is retired after the
    /// best-effort quiesce, and the chain goes.
    pub fn teardown(&mut self) -> (was: [bool; 2])
        ensures
            was@ == seq![old(self).is_pending(0), old(self).is_pending(1)],
            !final(self).is_pending(0) && !final(self).is_pending(1),
            final(self).live_chain() is None,
            final(self)@ == ring_teardown(old(self)@),
    {
        let was = self.retire_after_idle();
        proof { use_type_invariant(&*self); }
        self.chain = None;
        assert(was@ =~= seq![old(self).pending@[0], old(self).pending@[1]]);
        assert(self@.pending =~= no_pending());
        was
    }

    /// A chain was built to `plan`.
    pub fn chain_built(&mut self, plan: ChainPlan)
        ensures
            final(self).live_chain() == Some(ChainInfo { extent: plan.extent, transform: plan.transform }),
            final(self).slot() == old(self).slot(),
            final(self).is_dormant() == old(self).is_dormant(),
            forall|i: int| 0 <= i < FRAMES_IN_FLIGHT ==> final(self).is_pending(i) == old(self).is_pending(i),
            final(self)@ == ring_chain_built(old(self)@, plan),
    {
        proof { use_type_invariant(&*self); }
        self.chain = Some(ChainInfo { extent: plan.extent, transform: plan.transform });
    }
}

/// Two submits bring the ring back to the slot it started from: the
/// ring alternates between its two slots.
pub proof fn lemma_ring_alternates(slot: int)
    requires
        0 <= slot < FRAMES_IN_FLIGHT,
    ensures
        FrameRing::next_slot(slot) != slot,
        0 <= FrameRing::next_slot(slot) < FRAMES_IN_FLIGHT,
        FrameRing::next_slot(FrameRing::next_slot(slot)) == slot,
{
}

/// A frame that asks for depth on an adapter that offers no depth format
/// is refused before any frame work begins.
pub fn depth_guard(wants_depth: bool, depth_format: Option<i32>) -> (r: Result<(), TargetError>)
    ensures
        r == (if wants_depth && depth_format is None {
            Err::<(), TargetError>(TargetError::DepthUnsupported { chain: CHAIN_NAMES })
        } else {
            Ok(())
        }),
{
    if wants_depth && depth_format.is_none() {
        Err(TargetError::DepthUnsupported { chain: CHAIN_NAMES })
    } else {
        Ok(())
    }
}

/// A failed fence wait: the watchdog by name, a lost device (noted on
/// the poison) as such, anything else as a refused call.
pub fn fence_wait_error(poison: &mut PoisonFlag, code: i32) -> (e: TargetError)
    ensures
        code == RESULT_TIMEOUT ==> e == (TargetError::Timeout { call: "vkWaitForFences" }) && final(poison)@ == old(poison)@,
        code != RESULT_TIMEOUT ==> final(poison)@ == (old(poison)@ || code == RESULT_ERROR_DEVICE_LOST)
            && e == crate::device::spec_target_call_error("vkWaitForFences", code),
{
    if code == RESULT_TIMEOUT {
        TargetError::Timeout { call: "vkWaitForFences" }
    } else {
        target_call_error(poison, "vkWaitForFences", code)
    }
}

/// A failed acquire: a stale swapchain is not an error but a resize; the
/// watchdog (or an image not ready in time) is a timeout; a lost device
/// (noted on the poison) as such; anything else a refused call. No
/// semaphore signal is queued on any of these, so the chain stays.
pub fn acquire_failure(poison: &mut PoisonFlag, code: i32) -> (r: Result<PresentOutcome, TargetError>)
    ensures
        code == RESULT_ERROR_OUT_OF_DATE ==> r == Ok::<PresentOutcome, TargetError>(PresentOutcome::NeedsResize)
            && final(poison)@ == old(poison)@,
        (code == RESULT_TIMEOUT || code == RESULT_NOT_READY) ==> r == Err::<PresentOutcome, TargetError>(
            TargetError::Timeout { call: "vkAcquireNextImageKHR" },
        ) && final(poison)@ == old(poison)@,
        !(code == RESULT_ERROR_OUT_OF_DATE || code == RESULT_TIMEOUT || code == RESULT_NOT_READY) ==> r
            == Err::<PresentOutcome, TargetError>(crate::device::spec_target_call_error("vkAcquireNextImageKHR", code))
            && final(poison)@ == (old(poison)@ || code == RESULT_ERROR_DEVICE_LOST),
{
    if code == RESULT_ERROR_OUT_OF_DATE {
        Ok(PresentOutcome::NeedsResize)
    } else if code == RESULT_TIMEOUT || code == RESULT_NOT_READY {
        Err(TargetError::Timeout { call: "vkAcquireNextImageKHR" })
    } else {
        Err(target_call_error(poison, "vkAcquireNextImageKHR", code))
    }
}

/// The acquired image index, checked against the chain's image count: an
/// index the chain does not have is a refused acquire.
pub fn check_image_index(index: u32, image_count: usize) -> (r: Result<usize, TargetError>)
    ensures
        r == (if (index as int) < image_count {
            Ok::<usize, TargetError>(index as usize)
        } else {
            Err(TargetError::Creation { call: "vkAcquireNextImageKHR(index)", code: 0 })
        }),
{
    if (index as usize) < image_count {
        Ok(index as usize)
    } else {
        Err(TargetError::Creation { call: "vkAcquireNextImageKHR(index)", code: 0 })
    }
}

/// What a present answered: a clean present of an image acquired
/// without staleness is presented; a suboptimal or stale swapchain is a
/// resize; a lost device (noted on the poison) or any other failure is
/// an error the caller aborts the frame with.
pub fn present_outcome(poison: &mut PoisonFlag, result: i32, acquire_suboptimal: bool) -> (r: Result<PresentOutcome, TargetError>)
    ensures
        result == RESULT_SUCCESS && !acquire_suboptimal ==> r == Ok::<PresentOutcome, TargetError>(PresentOutcome::Presented),
        (result == RESULT_SUCCESS && acquire_suboptimal) || result == RESULT_SUBOPTIMAL || result
            == RESULT_ERROR_OUT_OF_DATE ==> r == Ok::<PresentOutcome, TargetError>(PresentOutcome::NeedsResize),
        !(result == RESULT_SUCCESS || result == RESULT_SUBOPTIMAL || result == RESULT_ERROR_OUT_OF_DATE) ==> r
            == Err::<PresentOutcome, TargetError>(crate::device::spec_target_call_error("vkQueuePresentKHR", result))
            && final(poison)@ == (old(poison)@ || result == RESULT_ERROR_DEVICE_LOST),
        (result == RESULT_SUCCESS || result == RESULT_SUBOPTIMAL || result == RESULT_ERROR_OUT_OF_DATE) ==> final(poison)@
            == old(poison)@,
{
    if result == RESULT_SUCCESS && !acquire_suboptimal {
        Ok(PresentOutcome::Presented)
    } else if result == RESULT_SUCCESS || result == RESULT_SUBOPTIMAL || result == RESULT_ERROR_OUT_OF_DATE {
        Ok(PresentOutcome::NeedsResize)
    } else {
        Err(target_call_error(poison, "vkQueuePresentKHR", result))
    }
}

} // verus!
