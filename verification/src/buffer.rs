//! Per-frame buffers: one allocation, one region per frame slot, the
//! region for a slot written only after that slot's fence is known
//! clear. This module owns the region arithmetic and the one-target
//! ownership rule.

use vstd::prelude::*;

verus! {

/// One region per frame slot.
pub const MAX_FRAME_SLOTS: usize = 2;

/// The floor per-slot regions start on.
pub const SLOT_ALIGN: u64 = 64;

/// How long a buffer's contents live.
#[derive(Debug, Clone, Copy, PartialEq, Eq, Structural)]
pub enum BufferUsage {
    /// Rewritten every frame by the host; read by the frame being
    /// recorded.
    PerFrame,
}

/// Where each slot's region sits in one per-frame allocation.
#[derive(Debug, Clone, Copy, PartialEq, Eq, Structural)]
pub struct SlotLayout {
    /// Distance between slot regions.
    pub slot_stride: u64,
    /// The whole allocation's size.
    pub total: u64,
}

/// The alignment slot regions start on: the vertex floor, or the
/// adapter's uniform-offset granularity when that is larger.
pub open spec fn slot_alignment(uniform_offset_alignment: u64) -> int {
    if uniform_offset_alignment > SLOT_ALIGN { uniform_offset_alignment as int } else { SLOT_ALIGN as int }
}

/// `value` rounded up to a multiple of `align`.
pub open spec fn round_up(value: int, align: int) -> int {
    ((value + align - 1) / align) * align
}

/// The region stride a capacity needs under an alignment.
pub open spec fn spec_slot_stride(capacity: int, uniform_offset_alignment: u64) -> int {
    round_up(capacity, slot_alignment(uniform_offset_alignment))
}

/// The region layout for `capacity` bytes per frame: each slot's region
/// starts on the larger of the two alignments, and the allocation holds
/// one region per slot. A zero capacity, or one whose regions overflow
/// the allocation size, is a contract violation the precondition
/// excludes.
pub fn slot_layout(capacity: usize, uniform_offset_alignment: u64) -> (layout: SlotLayout)
    requires
        capacity > 0,
        capacity as int + slot_alignment(uniform_offset_alignment) - 1 <= u64::MAX,
        spec_slot_stride(capacity as int, uniform_offset_alignment) * MAX_FRAME_SLOTS <= u64::MAX,
    ensures
        layout.slot_stride == spec_slot_stride(capacity as int, uniform_offset_alignment),
        layout.total == layout.slot_stride * MAX_FRAME_SLOTS,
        layout.slot_stride >= capacity,
        (layout.slot_stride as int) % slot_alignment(uniform_offset_alignment) == 0,
{
    let align = if uniform_offset_alignment > SLOT_ALIGN { uniform_offset_alignment } else { SLOT_ALIGN };
    let stride = (capacity as u64 + (align - 1)) / align * align;
    proof {
        let a = align as int;
        let c = capacity as int;
        vstd::arithmetic::div_mod::lemma_fundamental_div_mod(c + a - 1, a);
        assert(((c + a - 1) / a) * a == a * ((c + a - 1) / a)) by (nonlinear_arith);
        assert(((c + a - 1) / a) * a % a == 0) by (nonlinear_arith)
            requires a > 0;
    }
    SlotLayout { slot_stride: stride, total: stride * MAX_FRAME_SLOTS as u64 }
}

/// The region layout for `capacity` bytes per frame, or `None` when the
/// regions overflow the allocation size. A zero capacity is a contract
/// violation the precondition excludes.
pub fn checked_slot_layout(capacity: usize, uniform_offset_alignment: u64) -> (r: Option<SlotLayout>)
    requires
        capacity > 0,
    ensures
        match r {
            Some(layout) => {
                &&& layout.slot_stride == spec_slot_stride(capacity as int, uniform_offset_alignment)
                &&& layout.total == layout.slot_stride * MAX_FRAME_SLOTS
                &&& layout.slot_stride >= capacity
            },
            None => capacity as int + slot_alignment(uniform_offset_alignment) - 1 > u64::MAX
                || spec_slot_stride(capacity as int, uniform_offset_alignment) * MAX_FRAME_SLOTS > u64::MAX,
        },
{
    let align = if uniform_offset_alignment > SLOT_ALIGN { uniform_offset_alignment } else { SLOT_ALIGN };
    if capacity as u64 > u64::MAX - (align - 1) {
        return None;
    }
    let quotient = (capacity as u64 + (align - 1)) / align;
    proof {
        let x = capacity as int + align as int - 1;
        let a = align as int;
        vstd::arithmetic::div_mod::lemma_fundamental_div_mod(x, a);
        assert(quotient as int * a <= x) by (nonlinear_arith)
            requires x == a * (x / a) + x % a, x % a >= 0, quotient == x / a, a > 0;
    }
    let stride = quotient * align;
    if stride > u64::MAX / 2 {
        return None;
    }
    Some(slot_layout(capacity, uniform_offset_alignment))
}

/// Where slot `slot`'s region starts.
pub fn slot_offset(layout: SlotLayout, slot: usize) -> (offset: u64)
    requires
        slot < MAX_FRAME_SLOTS,
        layout.total == layout.slot_stride * MAX_FRAME_SLOTS,
        layout.total <= u64::MAX,
    ensures
        offset == layout.slot_stride * slot,
        offset + layout.slot_stride <= layout.total,
{
    if slot == 0 {
        0
    } else {
        assert(slot == 1);
        assert(layout.slot_stride * slot == layout.slot_stride);
        layout.slot_stride
    }
}

/// Where slot `slot`'s copy of `len` bytes of frame data goes in a
/// buffer of `capacity` bytes per frame laid out as `layout`: the start
/// of the slot's region, with the whole copy inside it. Frame data longer
/// than the capacity is a contract violation the precondition excludes.
pub fn frame_data_offset(layout: SlotLayout, capacity: usize, slot: usize, len: usize) -> (offset: u64)
    requires
        slot < MAX_FRAME_SLOTS,
        len <= capacity,
        capacity <= layout.slot_stride,
        layout.total == layout.slot_stride * MAX_FRAME_SLOTS,
        layout.total <= u64::MAX,
    ensures
        offset == layout.slot_stride * slot,
        offset + len <= offset + layout.slot_stride,
        offset + len <= layout.total,
{
    slot_offset(layout, slot)
}

/// Whether `len` bytes of frame data fit one slot region of a buffer
/// holding `capacity` bytes per frame: the length bounds the copy into
/// mapped memory, so more than that is never written.
pub fn frame_data_fits(len: usize, capacity: usize) -> (r: bool)
    ensures
        r == (len <= capacity),
{
    len <= capacity
}

/// The one target a per-frame buffer may be written by, recorded on
/// first use: a second target's ring would race the first's reads with
/// no fence relating them.
#[derive(Debug, Clone, Copy, PartialEq, Eq, Structural)]
pub struct BufferOwner {
    owner: Option<u64>,
}

impl View for BufferOwner {
    type V = Option<u64>;

    closed spec fn view(&self) -> Option<u64> {
        self.owner
    }
}

impl BufferOwner {
    /// A buffer no target has written yet.
    pub fn new() -> (o: Self)
        ensures
            o@ is None,
    {
        BufferOwner { owner: None }
    }

    /// Claim the buffer for `target`: granted when no target holds it or
    /// `target` already does, refused for any other target.
    pub fn claim(&mut self, target: u64) -> (granted: bool)
        ensures
            granted == (old(self)@ is None || old(self)@ == Some(target)),
            granted ==> final(self)@ == Some(target),
            !granted ==> final(self)@ == old(self)@,
    {
        match self.owner {
            None => {
                self.owner = Some(target);
                true
            },
            Some(held) => held == target,
        }
    }
}

/// Once a target holds a buffer, no other target's claim is ever
/// granted: ownership is decided by the first claim.
pub proof fn lemma_first_claim_decides(first: u64, other: u64)
    requires
        first != other,
    ensures
        !(Some(first) is None || Some(first) == Some(other)),
{
}

} // verus!
