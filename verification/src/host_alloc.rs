//! Driver host allocations: the layout arithmetic behind the header
//! scheme, and the per-device ledger the allocation callbacks keep.
//!
//! Every allocation the driver asks for is over-allocated by a header
//! prefix of three machine words (size, alignment, offset) that sits just
//! below the pointer handed back, so a free can recover the true base
//! and layout. Which offset, which total and which alignment a request
//! gets, and whether it can be served at all, is decided here; the
//! pointer work stays at the callback edge.

use vstd::prelude::*;

use crate::device::HostAllocationStats;

verus! {

/// Bytes in one machine word.
pub open spec fn word_bytes() -> int {
    usize::BITS as int / 8
}

/// Bytes in the header stored below every pointer handed out: three
/// machine words.
pub open spec fn header_bytes() -> int {
    3 * word_bytes()
}

/// Whether `x` is a power of two: one bit set.
pub open spec fn is_power_of_two(x: usize) -> bool {
    x != 0 && x & ((x - 1) as usize) == 0
}

/// The smallest multiple of `align` that is at least `value`.
pub open spec fn next_multiple(value: int, align: int) -> int {
    if value % align == 0 { value } else { value + (align - value % align) }
}

/// The layout one request is served with.
#[derive(Debug, Clone, Copy, PartialEq, Eq, Structural)]
pub struct AllocPlan {
    /// Bytes asked of the system allocator: the request plus the offset.
    pub total: usize,
    /// The alignment asked of the system allocator.
    pub align: usize,
    /// Where the caller's bytes begin, past the base; the header ends
    /// exactly there.
    pub offset: usize,
}

/// The plan for `size` bytes at alignment `align`, or `None` when the
/// request cannot be represented: an alignment that is not a power of
/// two, a total that overflows, or a total the system allocator's layout
/// refuses (rounded up to its alignment, past `isize::MAX`).
///
/// The alignment served is the larger of the one asked for and the
/// header's own (one word); the offset is the smallest multiple of it
/// that fits the header.
pub open spec fn spec_plan(size: usize, align: usize) -> Option<AllocPlan> {
    if !is_power_of_two(align) {
        None
    } else {
        let a = if align >= word_bytes() { align as int } else { word_bytes() };
        let offset = next_multiple(header_bytes(), a);
        let total = size + offset;
        if offset > usize::MAX || total > usize::MAX || next_multiple(total, a) > isize::MAX {
            None
        } else {
            Some(AllocPlan { total: total as usize, align: a as usize, offset: offset as usize })
        }
    }
}

/// `value` rounded up to a multiple of `align`, or `None` past
/// `usize::MAX`.
fn checked_next_multiple(value: usize, align: usize) -> (r: Option<usize>)
    requires
        align > 0,
    ensures
        match r {
            Some(v) => v == next_multiple(value as int, align as int),
            None => next_multiple(value as int, align as int) > usize::MAX,
        },
{
    let rem = value % align;
    if rem == 0 {
        Some(value)
    } else {
        value.checked_add(align - rem)
    }
}

/// Plan one request: which layout to ask the system allocator for, and
/// where the caller's bytes begin.
///
/// A zero-size request is planned, not refused: a null return is how a
/// host allocator reports failure, and drivers do make zero-byte
/// requests. The total is never zero anyway, since the header sits below
/// every allocation.
pub fn plan(size: usize, align: usize) -> (r: Option<AllocPlan>)
    ensures
        r == spec_plan(size, align),
        r matches Some(p) ==> p.offset >= header_bytes() && p.total >= p.offset
            && p.total - p.offset == size && (p.offset as int) % (p.align as int) == 0,
{
    if !(align != 0 && align & (align - 1) == 0) {
        return None;
    }
    let word: usize = (usize::BITS / 8) as usize;
    let header: usize = 3 * word;
    let a: usize = if align >= word { align } else { word };
    let offset = match checked_next_multiple(header, a) {
        Some(v) => v,
        None => return None,
    };
    let total = match size.checked_add(offset) {
        Some(v) => v,
        None => return None,
    };
    let rounded = match checked_next_multiple(total, a) {
        Some(v) => v,
        None => return None,
    };
    if rounded > isize::MAX as usize {
        return None;
    }
    proof {
        let h = header as int;
        let ai = a as int;
        vstd::arithmetic::div_mod::lemma_fundamental_div_mod(h, ai);
        assert(offset >= h);
        assert(offset as int % ai == 0) by {
            if h % ai != 0 {
                vstd::arithmetic::div_mod::lemma_mod_add_multiples_vanish(h - h % ai, ai);
                assert((h - h % ai) % ai == 0) by {
                    vstd::arithmetic::div_mod::lemma_mod_multiples_basic(h / ai, ai);
                    assert(h - h % ai == (h / ai) * ai) by (nonlinear_arith)
                        requires h == ai * (h / ai) + h % ai;
                }
            }
        }
    }
    Some(AllocPlan { total, align: a, offset })
}

/// The per-device tally of driver host allocations. Counters wrap, as
/// the driver-thread counters they stand for do; diagnostics only.
#[derive(Debug, Clone, Copy, PartialEq, Eq, Structural)]
pub struct AllocLedger {
    /// Allocations served.
    pub allocations: u64,
    /// Frees served.
    pub deallocations: u64,
    /// Reallocations that moved a live allocation.
    pub reallocations: u64,
    /// Bytes the driver holds now.
    pub bytes_in_use: usize,
    /// The most bytes the driver held at once.
    pub peak_bytes: usize,
}

impl AllocLedger {
    /// An empty ledger.
    pub fn new() -> (l: Self)
        ensures
            l == (AllocLedger { allocations: 0, deallocations: 0, reallocations: 0, bytes_in_use: 0, peak_bytes: 0 }),
    {
        AllocLedger { allocations: 0, deallocations: 0, reallocations: 0, bytes_in_use: 0, peak_bytes: 0 }
    }

    /// Record an allocation of `size` bytes served: one more allocation,
    /// `size` more bytes in use, and the peak raised to meet them.
    pub fn note_allocation(&mut self, size: usize)
        ensures
            final(self).allocations == vstd::wrapping::u64_specs::wrapping_add(old(self).allocations, 1),
            final(self).deallocations == old(self).deallocations,
            final(self).reallocations == old(self).reallocations,
            final(self).bytes_in_use == vstd::wrapping::usize_specs::wrapping_add(old(self).bytes_in_use, size),
            final(self).peak_bytes == (if old(self).peak_bytes >= final(self).bytes_in_use {
                old(self).peak_bytes
            } else {
                final(self).bytes_in_use
            }),
    {
        self.allocations = self.allocations.wrapping_add(1);
        self.bytes_in_use = self.bytes_in_use.wrapping_add(size);
        if self.peak_bytes < self.bytes_in_use {
            self.peak_bytes = self.bytes_in_use;
        }
    }

    /// Record a free of an allocation of `size` bytes: one more free,
    /// `size` fewer bytes in use; the peak stays.
    pub fn note_deallocation(&mut self, size: usize)
        ensures
            final(self).allocations == old(self).allocations,
            final(self).deallocations == vstd::wrapping::u64_specs::wrapping_add(old(self).deallocations, 1),
            final(self).reallocations == old(self).reallocations,
            final(self).bytes_in_use == vstd::wrapping::usize_specs::wrapping_sub(old(self).bytes_in_use, size),
            final(self).peak_bytes == old(self).peak_bytes,
    {
        self.deallocations = self.deallocations.wrapping_add(1);
        self.bytes_in_use = self.bytes_in_use.wrapping_sub(size);
    }

    /// The tallies, as a device reports them.
    pub fn stats(&self) -> (s: HostAllocationStats)
        ensures
            s == (HostAllocationStats {
                allocations: self.allocations,
                deallocations: self.deallocations,
                reallocations: self.reallocations,
                bytes_in_use: self.bytes_in_use,
                peak_bytes: self.peak_bytes,
            }),
    {
        HostAllocationStats {
            allocations: self.allocations,
            deallocations: self.deallocations,
            reallocations: self.reallocations,
            bytes_in_use: self.bytes_in_use,
            peak_bytes: self.peak_bytes,
        }
    }

    /// Record a reallocation that moved a live allocation.
    pub fn note_reallocation(&mut self)
        ensures
            *final(self) == (AllocLedger {
                reallocations: vstd::wrapping::u64_specs::wrapping_add(old(self).reallocations, 1),
                ..*old(self)
            }),
    {
        self.reallocations = self.reallocations.wrapping_add(1);
    }
}

/// What a reallocation request comes to, before any pointer is touched.
#[derive(Debug, Clone, Copy, PartialEq, Eq, Structural)]
pub enum ReallocStep {
    /// No original: a plain allocation.
    Allocate,
    /// A zero size: free the original and answer null.
    Release,
    /// Allocate anew, copy, free the original — the original survives a
    /// failed allocation untouched.
    Move,
}

/// Which step a reallocation of `original` (null or live) to `size`
/// bytes takes.
pub fn realloc_step(original_is_null: bool, size: usize) -> (s: ReallocStep)
    ensures
        s == (if original_is_null {
            ReallocStep::Allocate
        } else if size == 0 {
            ReallocStep::Release
        } else {
            ReallocStep::Move
        }),
{
    if original_is_null {
        ReallocStep::Allocate
    } else if size == 0 {
        ReallocStep::Release
    } else {
        ReallocStep::Move
    }
}

/// How many bytes a move copies: what the old allocation held, cut to
/// what the new one holds.
pub fn copy_len(old_size: usize, new_size: usize) -> (n: usize)
    ensures
        n == (if old_size <= new_size { old_size } else { new_size }),
{
    if old_size <= new_size { old_size } else { new_size }
}

/// A zero-size request is planned, not refused: a null answer would tell
/// the driver the host is out of memory. It is served at every
/// power-of-two alignment that leaves room for the header below
/// `isize::MAX`, with a non-zero total that is exactly the header's
/// offset.
pub proof fn lemma_zero_size_is_served(align: usize)
    requires
        is_power_of_two(align),
        align + header_bytes() <= isize::MAX,
    ensures
        spec_plan(0, align) matches Some(p) && p.total > 0 && p.total == p.offset && p.offset >= header_bytes(),
{
    let a = if align >= word_bytes() { align as int } else { word_bytes() };
    let h = header_bytes();
    assert(word_bytes() == 4 || word_bytes() == 8);
    assert(a > 0);
    vstd::arithmetic::div_mod::lemma_fundamental_div_mod(h, a);
    let offset = next_multiple(h, a);
    assert(h <= offset <= h + a - 1);
    assert(offset % a == 0) by {
        if h % a != 0 {
            assert(h - h % a == (h / a) * a) by (nonlinear_arith)
                requires h == a * (h / a) + h % a;
            vstd::arithmetic::div_mod::lemma_mod_multiples_basic(h / a, a);
            vstd::arithmetic::div_mod::lemma_mod_add_multiples_vanish(h - h % a, a);
        }
    }
    assert(next_multiple(offset, a) == offset);
}

/// A free undoes the allocation it frees: noting an allocation of `size`
/// bytes and then its free leaves the bytes in use where they were, even
/// across a wrap.
pub proof fn lemma_free_undoes_allocation(in_use: usize, size: usize)
    ensures
        vstd::wrapping::usize_specs::wrapping_sub(
            vstd::wrapping::usize_specs::wrapping_add(in_use, size),
            size,
        ) == in_use,
{
}

/// The peak never trails the bytes in use right after an allocation.
pub proof fn lemma_peak_covers_use(before: AllocLedger, after: AllocLedger, size: usize)
    requires
        after.bytes_in_use == vstd::wrapping::usize_specs::wrapping_add(before.bytes_in_use, size),
        after.peak_bytes == (if before.peak_bytes >= after.bytes_in_use {
            before.peak_bytes
        } else {
            after.bytes_in_use
        }),
    ensures
        after.peak_bytes >= after.bytes_in_use,
        after.peak_bytes >= before.peak_bytes,
{
}

} // verus!
