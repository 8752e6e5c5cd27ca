//! Geometry descriptors: vertex and index bytes written once at
//! creation. Because the bytes never change, creation can afford to walk
//! every index and refuse a mesh whose indices reach past its last
//! vertex — which, with the stride agreement the frame contract checks,
//! keeps every vertex fetch inside the allocation.

use vstd::prelude::*;
use crate::error::TargetError;

verus! {

/// Index elements are `u32`, so the index region starts on a four-byte
/// boundary after the vertex region.
pub const INDEX_ALIGN: u64 = 4;

/// The bytes of one mesh: a vertex stream, the stride that divides it,
/// and the indices that walk it.
#[derive(Debug, Clone, Copy)]
pub struct MeshDesc<'a> {
    /// Vertex records, tightly packed; a whole non-zero number of
    /// records of `vertex_stride` bytes.
    pub vertices: &'a [u8],
    /// Distance between consecutive vertex records, in bytes.
    pub vertex_stride: u32,
    /// Indices into the vertex stream, in draw order.
    pub indices: &'a [u32],
}

impl<'a> MeshDesc<'a> {
    /// `vertices` divided into records of `vertex_stride` bytes, walked
    /// by `indices`.
    pub fn new(vertices: &'a [u8], vertex_stride: u32, indices: &'a [u32]) -> (d: Self)
        ensures
            d.vertices@ == vertices@,
            d.vertex_stride == vertex_stride,
            d.indices@ == indices@,
    {
        MeshDesc { vertices, vertex_stride, indices }
    }
}

/// What the descriptor check proved, so the caller does not recompute
/// it.
#[derive(Debug, Clone, Copy, PartialEq, Eq, Structural)]
pub struct MeshLayout {
    /// How many whole vertex records the stream holds.
    pub vertex_count: u32,
    /// Byte offset of the index region within the one allocation.
    pub index_offset: u64,
    /// Total allocation size: the index region's end.
    pub total: u64,
}

/// `value` rounded up to the next multiple of four.
pub open spec fn round_up_4(value: int) -> int {
    ((value + 3) / 4) * 4
}

/// Which length rule a mesh breaks, if any, in the order they are
/// checked.
pub open spec fn layout_refusal(vertex_bytes: int, vertex_stride: u32, index_count: int) -> Option<&'static str> {
    if vertex_stride == 0 {
        Some("create_mesh(zero vertex stride)")
    } else if vertex_bytes == 0 {
        Some("create_mesh(no vertices)")
    } else if vertex_bytes % (vertex_stride as int) != 0 {
        Some("create_mesh(vertex length is not a whole number of records)")
    } else if index_count == 0 {
        Some("create_mesh(no indices)")
    } else if vertex_bytes / (vertex_stride as int) > u32::MAX {
        Some("create_mesh(vertex count exceeds u32)")
    } else if index_count > u32::MAX {
        Some("create_mesh(index count exceeds u32)")
    } else if round_up_4(vertex_bytes) + 4 * index_count > u64::MAX {
        Some("create_mesh(total size overflows)")
    } else {
        None
    }
}

/// The layout lengths that pass every rule produce: the vertex count,
/// the four-aligned index offset, and the index region's end.
pub open spec fn spec_layout(vertex_bytes: int, vertex_stride: u32, index_count: int) -> MeshLayout {
    MeshLayout {
        vertex_count: (vertex_bytes / (vertex_stride as int)) as u32,
        index_offset: round_up_4(vertex_bytes) as u64,
        total: (round_up_4(vertex_bytes) + 4 * index_count) as u64,
    }
}

proof fn lemma_round_up_4(value: int)
    requires
        value >= 0,
    ensures
        value <= round_up_4(value) <= value + 3,
        round_up_4(value) % 4 == 0,
{
}

/// Every rule that depends only on the lengths: a non-zero stride, a
/// non-empty stream that divides into whole records, a non-empty index
/// list, counts that fit a `u32`, and a total that fits a `u64`.
pub fn layout_for(vertex_bytes: usize, vertex_stride: u32, index_count: usize) -> (r: Result<MeshLayout, TargetError>)
    ensures
        match layout_refusal(vertex_bytes as int, vertex_stride, index_count as int) {
            Some(call) => r == Err::<MeshLayout, TargetError>(TargetError::Creation { call, code: 0 }),
            None => r == Ok::<MeshLayout, TargetError>(spec_layout(vertex_bytes as int, vertex_stride, index_count as int)),
        },
{
    if vertex_stride == 0 {
        return Err(TargetError::Creation { call: "create_mesh(zero vertex stride)", code: 0 });
    }
    if vertex_bytes == 0 {
        return Err(TargetError::Creation { call: "create_mesh(no vertices)", code: 0 });
    }
    let stride = vertex_stride as usize;
    if vertex_bytes % stride != 0 {
        return Err(TargetError::Creation {
            call: "create_mesh(vertex length is not a whole number of records)",
            code: 0,
        });
    }
    if index_count == 0 {
        return Err(TargetError::Creation { call: "create_mesh(no indices)", code: 0 });
    }
    let records = vertex_bytes / stride;
    if records > u32::MAX as usize {
        return Err(TargetError::Creation { call: "create_mesh(vertex count exceeds u32)", code: 0 });
    }
    if index_count > u32::MAX as usize {
        return Err(TargetError::Creation { call: "create_mesh(index count exceeds u32)", code: 0 });
    }
    let vertex_count = records as u32;
    proof {
        vstd::arithmetic::div_mod::lemma_fundamental_div_mod(vertex_bytes as int, stride as int);
        assert(records as int * stride as int <= u32::MAX as int * u32::MAX as int) by (nonlinear_arith)
            requires records <= u32::MAX, stride <= u32::MAX;
        assert(records as int * stride as int == stride as int * records as int) by (nonlinear_arith);
        assert(vertex_bytes as int <= u32::MAX as int * u32::MAX as int);
        lemma_round_up_4(vertex_bytes as int);
    }
    // The vertex bytes equal `vertex_count * stride` exactly (the stream
    // divides), and both are below 2^32, so the offset is computed in
    // `u64` without overflow.
    let vertex_len = vertex_bytes as u64;
    let index_offset = (vertex_len + 3) / 4 * 4;
    let index_bytes = index_count as u64 * 4;
    if index_offset > u64::MAX - index_bytes {
        return Err(TargetError::Creation { call: "create_mesh(total size overflows)", code: 0 });
    }
    let total = index_offset + index_bytes;
    Ok(MeshLayout { vertex_count, index_offset, total })
}

/// The whole descriptor rule: the length rules, then the scan this
/// design exists to afford — no index may address the record one past
/// the end or beyond.
pub open spec fn desc_refusal(desc: MeshDesc) -> Option<&'static str> {
    match layout_refusal(desc.vertices@.len() as int, desc.vertex_stride, desc.indices@.len() as int) {
        Some(call) => Some(call),
        None => {
            let count = spec_layout(desc.vertices@.len() as int, desc.vertex_stride, desc.indices@.len() as int).vertex_count;
            if exists|i: int| 0 <= i < desc.indices@.len() && desc.indices@[i] >= count {
                Some("create_mesh(index past the last vertex)")
            } else {
                None
            }
        },
    }
}

/// Check a mesh descriptor, naming the rule it breaks.
#[verifier::loop_isolation(false)]
pub fn check_desc(desc: &MeshDesc) -> (r: Result<MeshLayout, TargetError>)
    ensures
        match desc_refusal(*desc) {
            Some(call) => r == Err::<MeshLayout, TargetError>(TargetError::Creation { call, code: 0 }),
            None => r == Ok::<MeshLayout, TargetError>(
                spec_layout(desc.vertices@.len() as int, desc.vertex_stride, desc.indices@.len() as int),
            ),
        },
{
    let layout = match layout_for(desc.vertices.len(), desc.vertex_stride, desc.indices.len()) {
        Err(error) => return Err(error),
        Ok(layout) => layout,
    };
    let mut i: usize = 0;
    while i < desc.indices.len()
        invariant
            i <= desc.indices@.len(),
            forall|j: int| 0 <= j < i ==> desc.indices@[j] < layout.vertex_count,
        decreases desc.indices@.len() - i,
    {
        if desc.indices[i] >= layout.vertex_count {
            assert(desc.indices@[i as int] >= layout.vertex_count);
            return Err(TargetError::Creation { call: "create_mesh(index past the last vertex)", code: 0 });
        }
        i = i + 1;
    }
    Ok(layout)
}

/// What immutability buys: a mesh the check accepts has every index
/// inside its vertex count, its vertex bytes are exactly that many
/// records, and the two regions of its one allocation do not overlap —
/// the vertex region ends at or before the four-aligned index region,
/// which ends at the total.
pub proof fn lemma_accepted_mesh_is_in_bounds(desc: MeshDesc)
    requires
        desc_refusal(desc) is None,
    ensures
        ({
            let layout = spec_layout(desc.vertices@.len() as int, desc.vertex_stride, desc.indices@.len() as int);
            &&& forall|i: int| 0 <= i < desc.indices@.len() ==> desc.indices@[i] < layout.vertex_count
            &&& layout.vertex_count as int * desc.vertex_stride as int == desc.vertices@.len()
            &&& desc.vertices@.len() <= layout.index_offset
            &&& layout.index_offset % 4 == 0
            &&& layout.total == layout.index_offset + 4 * desc.indices@.len()
        }),
{
    let bytes = desc.vertices@.len() as int;
    let stride = desc.vertex_stride as int;
    vstd::arithmetic::div_mod::lemma_fundamental_div_mod(bytes, stride);
    assert((bytes / stride) <= u32::MAX);
    assert(((bytes / stride) as u32) as int == bytes / stride);
    assert((bytes / stride) * stride == stride * (bytes / stride)) by (nonlinear_arith);
    lemma_round_up_4(bytes);
}

} // verus!
