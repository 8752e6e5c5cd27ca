//! Memory-type selection over what the driver reports.

use vstd::prelude::*;
use crate::formats::{spec_contains, MAX_MEMORY_TYPES, MEMORY_DEVICE_LOCAL};

verus! {

/// The driver's memory-type table: how many types it reports, and each
/// type's property flags.
#[derive(Debug, Clone, Copy)]
pub struct MemoryProperties {
    /// The reported type count; types past it are unreported.
    pub memory_type_count: u32,
    /// Each type's property flags, in index order.
    pub memory_types: [u32; 32],
}

/// How many types are trusted: the reported count, clamped to the
/// table's width.
pub open spec fn trusted_count(properties: MemoryProperties) -> int {
    if properties.memory_type_count <= MAX_MEMORY_TYPES {
        properties.memory_type_count as int
    } else {
        MAX_MEMORY_TYPES as int
    }
}

/// Whether type `index` is allowed by `type_bits` and offers every one
/// of `flags` — every requested flag, not merely one of them.
pub open spec fn type_fits(properties: MemoryProperties, type_bits: u32, flags: u32, index: int) -> bool {
    &&& 0 <= index < trusted_count(properties)
    &&& (type_bits >> (index as u32)) & 1 == 1
    &&& spec_contains(properties.memory_types@[index], flags)
}

/// The lowest-indexed memory type satisfying `type_bits` and `flags`.
pub fn pick_memory_type(properties: &MemoryProperties, type_bits: u32, flags: u32) -> (r: Option<u32>)
    ensures
        match r {
            Some(index) => type_fits(*properties, type_bits, flags, index as int)
                && forall|j: int| 0 <= j < index ==> !type_fits(*properties, type_bits, flags, j),
            None => forall|j: int| 0 <= j < trusted_count(*properties) ==> !type_fits(*properties, type_bits, flags, j),
        },
{
    let count = if properties.memory_type_count <= MAX_MEMORY_TYPES {
        properties.memory_type_count
    } else {
        MAX_MEMORY_TYPES
    };
    let mut index: u32 = 0;
    while index < count
        invariant
            count as int == trusted_count(*properties),
            count <= 32,
            index <= count,
            forall|j: int| 0 <= j < index ==> !type_fits(*properties, type_bits, flags, j),
        decreases count - index,
    {
        let allowed = (type_bits >> index) & 1 == 1;
        let type_flags = properties.memory_types[index as usize];
        if allowed && type_flags & flags == flags {
            return Some(index);
        }
        index = index + 1;
    }
    None
}

/// The memory type for an image: device-local when the image can live
/// there, any type it accepts otherwise.
pub fn image_memory_type(properties: &MemoryProperties, type_bits: u32) -> (r: Option<u32>)
    ensures
        match r {
            Some(index) => if exists|j: int| type_fits(*properties, type_bits, MEMORY_DEVICE_LOCAL, j) {
                type_fits(*properties, type_bits, MEMORY_DEVICE_LOCAL, index as int)
                    && forall|j: int| 0 <= j < index ==> !type_fits(*properties, type_bits, MEMORY_DEVICE_LOCAL, j)
            } else {
                type_fits(*properties, type_bits, 0, index as int)
                    && forall|j: int| 0 <= j < index ==> !type_fits(*properties, type_bits, 0, j)
            },
            None => forall|j: int| 0 <= j < trusted_count(*properties) ==> !type_fits(*properties, type_bits, 0, j),
        },
{
    match pick_memory_type(properties, type_bits, MEMORY_DEVICE_LOCAL) {
        Some(index) => {
            proof {
                let flags = properties.memory_types@[index as int];
                assert(flags & 0u32 == 0u32) by (bit_vector);
            }
            Some(index)
        },
        None => pick_memory_type(properties, type_bits, 0),
    }
}

} // verus!
