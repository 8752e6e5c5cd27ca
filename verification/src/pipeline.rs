//! Pipeline descriptors and the vertex-input layout they derive.
//!
//! Two pipeline shapes exist, and which one a pipeline is decides where
//! its vertex count comes from: a generative pipeline's stages write
//! their own vertex list, so the count travels with the shaders; a mesh
//! pipeline reads a per-vertex stream, so the count arrives with the
//! geometry at the draw.

use vstd::prelude::*;
use crate::error::PipelineError;
use crate::formats::{
    FORMAT_B8G8R8A8_SRGB, FORMAT_B8G8R8A8_UNORM, FORMAT_R32G32B32A32_SFLOAT, FORMAT_R32G32B32_SFLOAT,
    FORMAT_R32G32_SFLOAT, FORMAT_R8G8B8A8_SRGB, FORMAT_R8G8B8A8_UNORM,
};

verus! {

/// The colour format a pipeline renders into — or none at all, for a
/// pipeline that only writes depth.
#[derive(Debug, Clone, Copy, PartialEq, Eq, Structural)]
pub enum TargetFormat {
    /// Linear RGBA8: the offscreen target's and every colour render
    /// image's format.
    Rgba8Unorm,
    /// Linear BGRA8.
    Bgra8Unorm,
    /// sRGB-encoded RGBA8, a surface format.
    Rgba8Srgb,
    /// sRGB-encoded BGRA8, the surface format desktop compositors
    /// report first.
    Bgra8Srgb,
    /// No colour attachment: the pipeline writes only depth, so it draws
    /// only into depth render images.
    DepthOnly,
}

/// The Vulkan format a target format renders into; `None` for a
/// depth-only pipeline, which has no colour attachment.
pub open spec fn spec_color_format(format: TargetFormat) -> Option<i32> {
    match format {
        TargetFormat::Rgba8Unorm => Some(FORMAT_R8G8B8A8_UNORM),
        TargetFormat::Bgra8Unorm => Some(FORMAT_B8G8R8A8_UNORM),
        TargetFormat::Rgba8Srgb => Some(FORMAT_R8G8B8A8_SRGB),
        TargetFormat::Bgra8Srgb => Some(FORMAT_B8G8R8A8_SRGB),
        TargetFormat::DepthOnly => None,
    }
}

impl TargetFormat {
    /// The Vulkan colour format this renders into, or `None` when the
    /// pipeline has no colour attachment.
    pub fn color_format(self) -> (r: Option<i32>)
        ensures
            r == spec_color_format(self),
    {
        match self {
            TargetFormat::Rgba8Unorm => Some(FORMAT_R8G8B8A8_UNORM),
            TargetFormat::Bgra8Unorm => Some(FORMAT_B8G8R8A8_UNORM),
            TargetFormat::Rgba8Srgb => Some(FORMAT_R8G8B8A8_SRGB),
            TargetFormat::Bgra8Srgb => Some(FORMAT_B8G8R8A8_SRGB),
            TargetFormat::DepthOnly => None,
        }
    }
}

/// One vertex attribute, in declaration order. Offsets and locations
/// are derived from position in the list, never written by the caller.
#[derive(Debug, Clone, Copy, PartialEq, Eq, Structural)]
pub enum VertexAttribute {
    /// Two 32-bit floats.
    Vec2,
    /// Three 32-bit floats.
    Vec3,
    /// Four 32-bit floats.
    Vec4,
}

/// The bytes one attribute occupies.
pub open spec fn spec_byte_len(attribute: VertexAttribute) -> nat {
    match attribute {
        VertexAttribute::Vec2 => 8,
        VertexAttribute::Vec3 => 12,
        VertexAttribute::Vec4 => 16,
    }
}

/// The Vulkan format an attribute is read as.
pub open spec fn spec_attribute_format(attribute: VertexAttribute) -> i32 {
    match attribute {
        VertexAttribute::Vec2 => FORMAT_R32G32_SFLOAT,
        VertexAttribute::Vec3 => FORMAT_R32G32B32_SFLOAT,
        VertexAttribute::Vec4 => FORMAT_R32G32B32A32_SFLOAT,
    }
}

impl VertexAttribute {
    /// The bytes this attribute occupies in its stream.
    pub fn byte_len(self) -> (r: u32)
        ensures
            r == spec_byte_len(self),
    {
        match self {
            VertexAttribute::Vec2 => 8,
            VertexAttribute::Vec3 => 12,
            VertexAttribute::Vec4 => 16,
        }
    }

    /// The Vulkan format this attribute is read as.
    pub fn format(self) -> (r: i32)
        ensures
            r == spec_attribute_format(self),
    {
        match self {
            VertexAttribute::Vec2 => FORMAT_R32G32_SFLOAT,
            VertexAttribute::Vec3 => FORMAT_R32G32B32_SFLOAT,
            VertexAttribute::Vec4 => FORMAT_R32G32B32A32_SFLOAT,
        }
    }
}

/// The packed size of a run of attributes: the sum of their lengths.
pub open spec fn stride_of(attributes: Seq<VertexAttribute>) -> nat
    decreases attributes.len(),
{
    if attributes.len() == 0 {
        0
    } else {
        stride_of(attributes.drop_last()) + spec_byte_len(attributes.last())
    }
}

/// The buffer binding a per-vertex stream is bound at.
pub const VERTEX_BINDING: u32 = 0;

/// The buffer binding a per-instance stream is bound at.
pub const INSTANCE_BINDING: u32 = 1;

/// How many attributes one pipeline may declare across both streams —
/// the guaranteed floor of `maxVertexInputAttributes`.
pub const MAX_VERTEX_ATTRIBUTES: usize = 16;

/// Whether a binding advances per vertex or per instance.
#[derive(Debug, Clone, Copy, PartialEq, Eq, Structural)]
pub enum InputRate {
    /// Once per vertex.
    Vertex,
    /// Once per instance.
    Instance,
}

/// One buffer binding of a vertex-input layout.
#[derive(Debug, Clone, Copy, PartialEq, Eq, Structural)]
pub struct VertexBinding {
    /// The binding number.
    pub binding: u32,
    /// The distance between consecutive records.
    pub stride: u32,
    /// How the binding advances.
    pub rate: InputRate,
}

/// One attribute of a vertex-input layout.
#[derive(Debug, Clone, Copy, PartialEq, Eq, Structural)]
pub struct AttributeDescription {
    /// The shader input location.
    pub location: u32,
    /// The binding the attribute reads from.
    pub binding: u32,
    /// The Vulkan format the attribute is read as.
    pub format: i32,
    /// The byte offset within the binding's record.
    pub offset: u32,
}

/// What a pair of attribute lists produces.
#[derive(Debug, Clone, PartialEq, Eq)]
pub struct VertexInputLayout {
    /// The bindings, per-vertex first; only declared streams appear.
    pub bindings: Vec<VertexBinding>,
    /// The attributes, per-vertex first, in one location space.
    pub attributes: Vec<AttributeDescription>,
    /// The packed per-vertex stride; zero when there is no per-vertex
    /// stream.
    pub vertex_stride: u32,
}

/// The attribute `attributes[i]` of a stream at `binding`, whose
/// locations start at `first_location`.
pub open spec fn described(
    attributes: Seq<VertexAttribute>,
    i: int,
    binding: u32,
    first_location: nat,
) -> AttributeDescription {
    AttributeDescription {
        location: (first_location + i) as u32,
        binding,
        format: spec_attribute_format(attributes[i]),
        offset: stride_of(attributes.take(i)) as u32,
    }
}

/// The binding a declared stream occupies, or nothing when it is empty.
pub open spec fn stream_binding(attributes: Seq<VertexAttribute>, binding: u32, rate: InputRate) -> Seq<VertexBinding> {
    if attributes.len() == 0 {
        Seq::empty()
    } else {
        seq![VertexBinding { binding, stride: stride_of(attributes) as u32, rate }]
    }
}

/// The layout two attribute lists describe: one location space across
/// two bindings, per-vertex first, offsets restarting per stream.
pub open spec fn layout_matches(
    layout: VertexInputLayout,
    vertex: Seq<VertexAttribute>,
    instance: Seq<VertexAttribute>,
) -> bool {
    &&& layout.attributes@.len() == vertex.len() + instance.len()
    &&& forall|i: int| 0 <= i < vertex.len() ==> #[trigger] layout.attributes@[i] == described(vertex, i, VERTEX_BINDING, 0)
    &&& forall|j: int| 0 <= j < instance.len() ==> #[trigger] layout.attributes@[vertex.len() + j] == described(instance, j, INSTANCE_BINDING, vertex.len())
    &&& layout.bindings@ == stream_binding(vertex, VERTEX_BINDING, InputRate::Vertex) + stream_binding(instance, INSTANCE_BINDING, InputRate::Instance)
    &&& layout.vertex_stride == stride_of(vertex)
}

proof fn lemma_stride_bound(attributes: Seq<VertexAttribute>)
    ensures
        stride_of(attributes) <= 16 * attributes.len(),
    decreases attributes.len(),
{
    if attributes.len() > 0 {
        lemma_stride_bound(attributes.drop_last());
    }
}

/// An optional attribute list as a sequence; absent reads as empty.
pub open spec fn attributes_of(list: Option<&[VertexAttribute]>) -> Seq<VertexAttribute> {
    match list {
        Some(attributes) => attributes@,
        None => Seq::empty(),
    }
}

/// Append one stream's attributes to `layout`, returning the stream's
/// packed stride.
fn append_stream(
    layout: &mut VertexInputLayout,
    attributes: &[VertexAttribute],
    binding: u32,
    rate: InputRate,
) -> (stride: u32)
    requires
        old(layout).attributes@.len() + attributes@.len() <= MAX_VERTEX_ATTRIBUTES,
    ensures
        stride == stride_of(attributes@),
        final(layout).vertex_stride == old(layout).vertex_stride,
        final(layout).attributes@.len() == old(layout).attributes@.len() + attributes@.len(),
        forall|i: int| 0 <= i < old(layout).attributes@.len() ==> #[trigger] final(layout).attributes@[i] == old(layout).attributes@[i],
        forall|j: int| 0 <= j < attributes@.len() ==> #[trigger] final(layout).attributes@[old(layout).attributes@.len() + j]
            == described(attributes@, j, binding, old(layout).attributes@.len() as nat),
        final(layout).bindings@ == old(layout).bindings@ + stream_binding(attributes@, binding, rate),
{
    let first = layout.attributes.len();
    let mut stride: u32 = 0;
    let mut index: usize = 0;
    while index < attributes.len()
        invariant
            index <= attributes@.len(),
            first == old(layout).attributes@.len(),
            first + attributes@.len() <= MAX_VERTEX_ATTRIBUTES,
            layout.attributes@.len() == first + index,
            layout.vertex_stride == old(layout).vertex_stride,
            layout.bindings@ == old(layout).bindings@,
            stride == stride_of(attributes@.take(index as int)),
            forall|i: int| 0 <= i < first ==> #[trigger] layout.attributes@[i] == old(layout).attributes@[i],
            forall|j: int| 0 <= j < index ==> #[trigger] layout.attributes@[first + j]
                == described(attributes@, j, binding, first as nat),
        decreases attributes@.len() - index,
    {
        proof {
            lemma_stride_bound(attributes@.take(index as int));
            assert(attributes@.take(index as int + 1).drop_last() =~= attributes@.take(index as int));
        }
        let attribute = attributes[index];
        layout.attributes.push(AttributeDescription {
            location: (first + index) as u32,
            binding,
            format: attribute.format(),
            offset: stride,
        });
        stride = stride + attribute.byte_len();
        index = index + 1;
    }
    proof {
        assert(attributes@.take(attributes@.len() as int) =~= attributes@);
    }
    if attributes.len() > 0 {
        layout.bindings.push(VertexBinding { binding, stride, rate });
    } else {
        assert(layout.bindings@ =~= old(layout).bindings@ + stream_binding(attributes@, binding, rate));
    }
    stride
}

/// Derive bindings, attributes and the per-vertex stride from what a
/// pipeline declares.
///
/// One location space across two bindings, per-vertex first, so an
/// instance-only pipeline's locations still start at zero. More than
/// [`MAX_VERTEX_ATTRIBUTES`] across both lists is a contract violation,
/// excluded by the precondition.
pub fn vertex_input_layout(
    per_vertex: Option<&[VertexAttribute]>,
    per_instance: Option<&[VertexAttribute]>,
) -> (layout: VertexInputLayout)
    requires
        attributes_of(per_vertex).len() + attributes_of(per_instance).len() <= MAX_VERTEX_ATTRIBUTES,
    ensures
        layout_matches(layout, attributes_of(per_vertex), attributes_of(per_instance)),
{
    let empty: [VertexAttribute; 0] = [];
    let vertex: &[VertexAttribute] = match per_vertex {
        Some(list) => list,
        None => empty.as_slice(),
    };
    let instance: &[VertexAttribute] = match per_instance {
        Some(list) => list,
        None => empty.as_slice(),
    };
    assert(vertex@ == attributes_of(per_vertex));
    assert(instance@ == attributes_of(per_instance));
    let mut layout = VertexInputLayout { bindings: Vec::new(), attributes: Vec::new(), vertex_stride: 0 };
    let stride = append_stream(&mut layout, vertex, VERTEX_BINDING, InputRate::Vertex);
    layout.vertex_stride = stride;
    append_stream(&mut layout, instance, INSTANCE_BINDING, InputRate::Instance);
    assert(layout.bindings@ =~= stream_binding(vertex@, VERTEX_BINDING, InputRate::Vertex) + stream_binding(instance@, INSTANCE_BINDING, InputRate::Instance));
    layout
}

/// How a pipeline's output is combined with what the target holds.
#[derive(Debug, Clone, Copy, PartialEq, Eq, Structural)]
pub enum Blend {
    /// Blending disabled: the draw replaces the target's contents.
    Opaque,
    /// `src + dst * (1 - src.a)`, colour and alpha alike.
    PremultipliedAlpha,
}

/// A vertex/fragment pair and the vertex count its vertex stage
/// generates — three values only correct together.
#[derive(Debug, Clone, Copy)]
pub struct Shaders<'a> {
    /// Vertex stage SPIR-V.
    pub vertex: &'a [u8],
    /// Fragment stage SPIR-V.
    pub fragment: &'a [u8],
    /// How many vertices the vertex stage generates for one draw.
    pub vertex_count: u32,
}

impl<'a> Shaders<'a> {
    /// A stage pair and its vertex count.
    pub fn new(vertex: &'a [u8], fragment: &'a [u8], vertex_count: u32) -> (s: Self)
        ensures
            s.vertex@ == vertex@,
            s.fragment@ == fragment@,
            s.vertex_count == vertex_count,
    {
        Shaders { vertex, fragment, vertex_count }
    }
}

/// A vertex/fragment pair whose vertex stage reads a per-vertex stream,
/// and so carries no vertex count: the count belongs to the geometry.
#[derive(Debug, Clone, Copy)]
pub struct MeshShaders<'a> {
    /// Vertex stage SPIR-V, declaring per-vertex inputs.
    pub vertex: &'a [u8],
    /// Fragment stage SPIR-V.
    pub fragment: &'a [u8],
}

impl<'a> MeshShaders<'a> {
    /// A stage pair that reads geometry.
    pub fn new(vertex: &'a [u8], fragment: &'a [u8]) -> (s: Self)
        ensures
            s.vertex@ == vertex@,
            s.fragment@ == fragment@,
    {
        MeshShaders { vertex, fragment }
    }
}

/// Whether a pipeline tests and writes the pass's depth attachment. The
/// compare op is `LESS_OR_EQUAL`.
#[derive(Debug, Clone, Copy, PartialEq, Eq, Structural)]
pub struct DepthState {
    /// Fragments failing the depth test are discarded.
    pub test: bool,
    /// Surviving fragments write their depth.
    pub write: bool,
}

impl DepthState {
    /// Test against and write the depth attachment.
    pub fn read_write() -> (d: Self)
        ensures
            d.test && d.write,
    {
        DepthState { test: true, write: true }
    }

    /// Test without writing.
    pub fn test_only() -> (d: Self)
        ensures
            d.test && !d.write,
    {
        DepthState { test: true, write: false }
    }
}

/// Texel selection between sample points.
#[derive(Debug, Clone, Copy, PartialEq, Eq, Structural)]
pub enum Filter {
    /// The nearest texel.
    Nearest,
    /// Bilinear blend of the four surrounding texels.
    Linear,
}

/// What a sample outside `[0, 1]` reads.
#[derive(Debug, Clone, Copy, PartialEq, Eq, Structural)]
pub enum AddressMode {
    /// The edge texel, repeated.
    ClampToEdge,
    /// The image, tiled.
    Repeat,
}

/// `VK_FILTER_NEAREST`.
pub const VK_FILTER_NEAREST: i32 = 0;
/// `VK_FILTER_LINEAR`.
pub const VK_FILTER_LINEAR: i32 = 1;
/// `VK_SAMPLER_ADDRESS_MODE_REPEAT`.
pub const VK_ADDRESS_MODE_REPEAT: i32 = 0;
/// `VK_SAMPLER_ADDRESS_MODE_CLAMP_TO_EDGE`.
pub const VK_ADDRESS_MODE_CLAMP_TO_EDGE: i32 = 2;

impl Filter {
    /// The Vulkan filter this names.
    pub fn to_vk(self) -> (r: i32)
        ensures
            r == (match self {
                Filter::Nearest => VK_FILTER_NEAREST,
                Filter::Linear => VK_FILTER_LINEAR,
            }),
    {
        match self {
            Filter::Nearest => VK_FILTER_NEAREST,
            Filter::Linear => VK_FILTER_LINEAR,
        }
    }
}

impl AddressMode {
    /// The Vulkan address mode this names.
    pub fn to_vk(self) -> (r: i32)
        ensures
            r == (match self {
                AddressMode::ClampToEdge => VK_ADDRESS_MODE_CLAMP_TO_EDGE,
                AddressMode::Repeat => VK_ADDRESS_MODE_REPEAT,
            }),
    {
        match self {
            AddressMode::ClampToEdge => VK_ADDRESS_MODE_CLAMP_TO_EDGE,
            AddressMode::Repeat => VK_ADDRESS_MODE_REPEAT,
        }
    }
}

/// How a sampled image is filtered and addressed.
#[derive(Debug, Clone, Copy, PartialEq, Eq, Structural)]
pub struct SamplerDesc {
    /// How texels are chosen when a sample lands between them.
    pub filter: Filter,
    /// What happens outside `[0, 1]`.
    pub address: AddressMode,
}

impl SamplerDesc {
    /// The atlas default: nearest, clamped — crisp, and exact enough for
    /// byte-comparing reference images.
    pub fn atlas() -> (d: Self)
        ensures
            d.filter == Filter::Nearest,
            d.address == AddressMode::ClampToEdge,
    {
        SamplerDesc { filter: Filter::Nearest, address: AddressMode::ClampToEdge }
    }
}

/// Pipeline construction parameters.
#[derive(Debug, Clone, Copy)]
pub struct PipelineDesc<'a> {
    /// Vertex stage SPIR-V.
    pub vertex_spirv: &'a [u8],
    /// Fragment stage SPIR-V.
    pub fragment_spirv: &'a [u8],
    /// What the pipeline renders into.
    pub target_format: TargetFormat,
    /// Vertices per draw for a generative pipeline; ignored by a mesh
    /// pipeline, whose count comes from the geometry.
    pub vertex_count: u32,
    /// Per-vertex input; declaring it makes this a mesh pipeline.
    pub vertex_input: Option<&'a [VertexAttribute]>,
    /// Per-instance input.
    pub instance_input: Option<&'a [VertexAttribute]>,
    /// How the output combines with the target.
    pub blend: Blend,
    /// Depth testing, or `None` for a depthless pipeline.
    pub depth_state: Option<DepthState>,
    /// How many sampled-binding slots the pipeline reads.
    pub sampled_bindings: u32,
    /// The push-constant range the pipeline declares, in bytes.
    pub push_constant_size: u32,
}

impl<'a> PipelineDesc<'a> {
    /// A generative pipeline: `shaders` rendering into `target_format`,
    /// opaque, depthless, with no vertex input, bindings or push range.
    pub fn new(shaders: Shaders<'a>, target_format: TargetFormat) -> (d: Self)
        ensures
            d.vertex_spirv@ == shaders.vertex@,
            d.fragment_spirv@ == shaders.fragment@,
            d.target_format == target_format,
            d.vertex_count == shaders.vertex_count,
            d.vertex_input is None,
            d.instance_input is None,
            d.blend == Blend::Opaque,
            d.depth_state is None,
            d.sampled_bindings == 0,
            d.push_constant_size == 0,
    {
        PipelineDesc {
            vertex_spirv: shaders.vertex,
            fragment_spirv: shaders.fragment,
            target_format,
            vertex_count: shaders.vertex_count,
            vertex_input: None,
            instance_input: None,
            blend: Blend::Opaque,
            depth_state: None,
            sampled_bindings: 0,
            push_constant_size: 0,
        }
    }

    /// A mesh pipeline: stages reading a per-vertex stream of `layout`.
    /// Its vertex count is zero and never read.
    pub fn mesh(shaders: MeshShaders<'a>, target_format: TargetFormat, layout: &'a [VertexAttribute]) -> (d: Self)
        ensures
            d.vertex_spirv@ == shaders.vertex@,
            d.fragment_spirv@ == shaders.fragment@,
            d.target_format == target_format,
            d.vertex_count == 0,
            d.vertex_input == Some(layout),
            d.instance_input is None,
            d.blend == Blend::Opaque,
            d.depth_state is None,
            d.sampled_bindings == 0,
            d.push_constant_size == 0,
    {
        PipelineDesc {
            vertex_spirv: shaders.vertex,
            fragment_spirv: shaders.fragment,
            target_format,
            vertex_count: 0,
            vertex_input: Some(layout),
            instance_input: None,
            blend: Blend::Opaque,
            depth_state: None,
            sampled_bindings: 0,
            push_constant_size: 0,
        }
    }

    /// The same pipeline, combining its output per `blend`.
    pub fn blend(self, blend: Blend) -> (d: Self)
        ensures
            d == (PipelineDesc { blend, ..self }),
    {
        PipelineDesc { blend, ..self }
    }

    /// The same pipeline, declaring per-instance input.
    pub fn instance_input(self, attributes: &'a [VertexAttribute]) -> (d: Self)
        ensures
            d == (PipelineDesc { instance_input: Some(attributes), ..self }),
    {
        PipelineDesc { instance_input: Some(attributes), ..self }
    }

    /// The same pipeline, testing (and per `depth`, writing) depth.
    pub fn depth_state(self, depth: DepthState) -> (d: Self)
        ensures
            d == (PipelineDesc { depth_state: Some(depth), ..self }),
    {
        PipelineDesc { depth_state: Some(depth), ..self }
    }

    /// The same pipeline, reading `count` sampled-binding slots.
    pub fn sampled_bindings(self, count: u32) -> (d: Self)
        ensures
            d == (PipelineDesc { sampled_bindings: count, ..self }),
    {
        PipelineDesc { sampled_bindings: count, ..self }
    }

    /// The same pipeline, declaring a push-constant range of `bytes`.
    pub fn push_constants(self, bytes: u32) -> (d: Self)
        ensures
            d == (PipelineDesc { push_constant_size: bytes, ..self }),
    {
        PipelineDesc { push_constant_size: bytes, ..self }
    }
}

/// The depth formats the depth chain names, for diagnostics.
pub const CHAIN_NAMES: &'static str = "D32_SFLOAT, D24_UNORM_S8_UINT";

/// The depth attachment format a pipeline is built with: none for a
/// depthless pipeline, the device's chosen format for a depth-testing
/// one — and a refusal when depth is asked of a device that has none.
pub fn pipeline_depth_format(depth_state: Option<DepthState>, device_depth_format: Option<i32>) -> (r: Result<Option<i32>, PipelineError>)
    ensures
        depth_state is None ==> r == Ok::<Option<i32>, PipelineError>(None),
        depth_state is Some && device_depth_format is Some ==> r == Ok::<Option<i32>, PipelineError>(device_depth_format),
        depth_state is Some && device_depth_format is None
            ==> r == Err::<Option<i32>, PipelineError>(PipelineError::DepthUnsupported { chain: CHAIN_NAMES }),
{
    match depth_state {
        None => Ok(None),
        Some(_) => match device_depth_format {
            Some(format) => Ok(Some(format)),
            None => Err(PipelineError::DepthUnsupported { chain: CHAIN_NAMES }),
        },
    }
}

/// What a built pipeline tells the frame contract about itself.
#[derive(Debug, Clone, Copy, PartialEq, Eq, Structural)]
pub struct PipelineInfo {
    /// What it renders into.
    pub format: TargetFormat,
    /// Vertices per draw of a generative pipeline.
    pub vertex_count: u32,
    /// Whether it reads a per-vertex stream (a mesh pipeline).
    pub vertex_input: bool,
    /// The packed per-vertex stride; zero when there is none.
    pub vertex_stride: u32,
    /// Whether it carries depth state.
    pub depth: bool,
    /// The push-constant range it declares, in bytes.
    pub push_constant_size: u32,
    /// How many sampled-binding slots it reads.
    pub sampled_bindings: u32,
}

/// The facts a pipeline built from `desc` carries into every frame
/// that draws with it.
pub fn pipeline_info(desc: &PipelineDesc) -> (info: PipelineInfo)
    requires
        attributes_of(desc.vertex_input).len() + attributes_of(desc.instance_input).len() <= MAX_VERTEX_ATTRIBUTES,
    ensures
        info.format == desc.target_format,
        info.vertex_count == desc.vertex_count,
        info.vertex_input == desc.vertex_input is Some,
        info.vertex_stride == stride_of(attributes_of(desc.vertex_input)),
        info.depth == desc.depth_state is Some,
        info.push_constant_size == desc.push_constant_size,
        info.sampled_bindings == desc.sampled_bindings,
{
    let layout = vertex_input_layout(desc.vertex_input, desc.instance_input);
    PipelineInfo {
        format: desc.target_format,
        vertex_count: desc.vertex_count,
        vertex_input: desc.vertex_input.is_some(),
        vertex_stride: layout.vertex_stride,
        depth: desc.depth_state.is_some(),
        push_constant_size: desc.push_constant_size,
        sampled_bindings: desc.sampled_bindings,
    }
}

} // verus!
