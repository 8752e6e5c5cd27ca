//! The frame vocabulary — a frame is a list of passes, a pass is
//! attachments and items — and the frame contract every target checks
//! before any GPU call.
//!
//! Resources appear here by identity (a key the owning handle supplies)
//! and by the facts the contract reads about them; the handles
//! themselves stay with the targets that record them.
//!
//! One state machine, the frame walk, decides both the identity rules
//! (first-use loads, the one-way target-then-sample walk per render
//! image, the distinct-image ceiling) and the barrier pairs each pass
//! boundary needs, so the contract and the record paths cannot drift.

use vstd::prelude::*;
use crate::config::Color;
use crate::pipeline::{PipelineInfo, TargetFormat};
use crate::render_image::RenderImageKind;
use crate::transition::{spec_is_pass_boundary, ImageUse};

verus! {

/// How many distinct render images one frame may touch, as targets.
pub const MAX_FRAME_RENDER_IMAGES: usize = 4;

/// How many sampled-binding slots one pipeline may declare, and so the
/// most bindings one item may carry.
pub const MAX_SAMPLED_BINDINGS: usize = 4;

/// How many distinct resources one frame may keep alive: per-frame
/// buffers, meshes, bindings and pass-target images together.
pub const MAX_RETAINED_RESOURCES: usize = 16;

/// The value a clearing load writes.
#[derive(Debug, Clone, Copy, PartialEq, Eq, Structural)]
pub enum ClearValue {
    /// A colour attachment's clear.
    Color(Color),
    /// A depth attachment's clear, as the bit pattern of its `f32`;
    /// valid when finite and in `[0, 1]`.
    Depth(u32),
}

/// What a pass finds in an attachment when it begins.
#[derive(Debug, Clone, Copy, PartialEq, Eq, Structural)]
pub enum LoadOp {
    /// The attachment starts as the clear value.
    Clear(ClearValue),
    /// The attachment keeps the previous pass's contents.
    Load,
}

/// What happens to an attachment's contents when a pass ends.
#[derive(Debug, Clone, Copy, PartialEq, Eq, Structural)]
pub enum StoreOp {
    /// The contents survive the pass.
    Store,
    /// The contents may be discarded.
    Discard,
}

/// `VK_ATTACHMENT_LOAD_OP_LOAD`.
pub const VK_LOAD_OP_LOAD: i32 = 0;
/// `VK_ATTACHMENT_LOAD_OP_CLEAR`.
pub const VK_LOAD_OP_CLEAR: i32 = 1;
/// `VK_ATTACHMENT_STORE_OP_STORE`.
pub const VK_STORE_OP_STORE: i32 = 0;
/// `VK_ATTACHMENT_STORE_OP_DONT_CARE`.
pub const VK_STORE_OP_DONT_CARE: i32 = 1;

impl LoadOp {
    /// The Vulkan load op.
    pub fn to_vk(self) -> (r: i32)
        ensures
            r == (match self {
                LoadOp::Clear(_) => VK_LOAD_OP_CLEAR,
                LoadOp::Load => VK_LOAD_OP_LOAD,
            }),
    {
        match self {
            LoadOp::Clear(_) => VK_LOAD_OP_CLEAR,
            LoadOp::Load => VK_LOAD_OP_LOAD,
        }
    }
}

impl StoreOp {
    /// The Vulkan store op.
    pub fn to_vk(self) -> (r: i32)
        ensures
            r == (match self {
                StoreOp::Store => VK_STORE_OP_STORE,
                StoreOp::Discard => VK_STORE_OP_DONT_CARE,
            }),
    {
        match self {
            StoreOp::Store => VK_STORE_OP_STORE,
            StoreOp::Discard => VK_STORE_OP_DONT_CARE,
        }
    }
}

/// How one attachment is loaded and stored by a pass.
#[derive(Debug, Clone, Copy, PartialEq, Eq, Structural)]
pub struct Attachment {
    /// What the pass finds in the attachment.
    pub load: LoadOp,
    /// What happens to its contents afterwards.
    pub store: StoreOp,
}

impl Attachment {
    /// An attachment loaded by `load` and stored by `store`.
    pub fn new(load: LoadOp, store: StoreOp) -> (a: Self)
        ensures
            a == (Attachment { load, store }),
    {
        Attachment { load, store }
    }
}

/// The colour attachment a frame renders into: cleared to `clear`,
/// stored.
pub fn color_attachment(clear: Color) -> (a: Attachment)
    ensures
        a == (Attachment { load: LoadOp::Clear(ClearValue::Color(clear)), store: StoreOp::Store }),
{
    Attachment::new(LoadOp::Clear(ClearValue::Color(clear)), StoreOp::Store)
}

/// The colour clear an attachment's load carries, as the bit patterns of
/// its four channels; zero for anything else (a `Load`, whose clear the
/// driver ignores).
pub fn clear_color_bits(attachment: &Attachment) -> (bits: [u32; 4])
    ensures
        bits@ == (match attachment.load {
            LoadOp::Clear(ClearValue::Color(c)) => seq![c.r, c.g, c.b, c.a],
            _ => seq![0u32, 0u32, 0u32, 0u32],
        }),
{
    let bits = match attachment.load {
        LoadOp::Clear(ClearValue::Color(c)) => [c.r, c.g, c.b, c.a],
        _ => [0u32, 0u32, 0u32, 0u32],
    };
    assert(bits@ =~= (match attachment.load {
        LoadOp::Clear(ClearValue::Color(c)) => seq![c.r, c.g, c.b, c.a],
        _ => seq![0u32, 0u32, 0u32, 0u32],
    }));
    bits
}

/// The depth clear an attachment's load carries, as the bit pattern of
/// its depth; zero for anything else. The stencil clears to zero.
pub fn clear_depth_bits(attachment: &Attachment) -> (bits: u32)
    ensures
        bits == (match attachment.load {
            LoadOp::Clear(ClearValue::Depth(d)) => d,
            _ => 0u32,
        }),
{
    match attachment.load {
        LoadOp::Clear(ClearValue::Depth(d)) => d,
        _ => 0u32,
    }
}

/// A render image, by identity and kind.
#[derive(Debug, Clone, Copy, PartialEq, Eq, Structural)]
pub struct ImageRef {
    /// The image's identity.
    pub key: u64,
    /// Which attachment slot it fills.
    pub kind: RenderImageKind,
}

/// A mesh, by identity and the stride it was built with.
#[derive(Debug, Clone, Copy, PartialEq, Eq, Structural)]
pub struct MeshRef {
    /// The mesh's identity.
    pub key: u64,
    /// Bytes between consecutive vertex records.
    pub vertex_stride: u32,
}

/// A binding, by identity and the render image it samples, if any.
#[derive(Debug, Clone, Copy, PartialEq, Eq, Structural)]
pub struct BindingRef {
    /// The binding's identity.
    pub key: u64,
    /// The render image the binding samples; `None` for a texture.
    pub sampled_image: Option<u64>,
}

/// An item's per-frame bytes: the buffer they go to, and the identity
/// of the bytes themselves (their address and length) with the instance
/// count they feed.
#[derive(Debug, Clone, Copy, PartialEq, Eq, Structural)]
pub struct FrameDataRef {
    /// The per-frame buffer's identity.
    pub buffer: u64,
    /// The bytes' address.
    pub address: u64,
    /// The bytes' length.
    pub len: usize,
    /// Instance count for the draw.
    pub instances: u32,
}

impl FrameDataRef {
    /// Two claims on one buffer agree when they name the same bytes and
    /// the same instance count — pointer identity, not content equality.
    pub open spec fn same_data(self, other: Self) -> bool {
        self.address == other.address && self.len == other.len && self.instances == other.instances
    }
}

/// An item's binding list: at most [`MAX_SAMPLED_BINDINGS`] bindings,
/// in slot order.
#[derive(Debug, Clone, Copy)]
pub struct Bindings {
    slots: [Option<BindingRef>; 4],
    count: u8,
}

impl View for Bindings {
    type V = Seq<BindingRef>;

    /// The bindings, in slot order.
    closed spec fn view(&self) -> Seq<BindingRef> {
        Seq::new(self.count as nat, |i: int| self.slots@[i]->0)
    }
}

impl Bindings {
    /// The slots are filled in order: the first `count` hold a binding,
    /// the rest nothing.
    #[verifier::type_invariant]
    closed spec fn filled_in_order(self) -> bool {
        &&& self.count <= 4
        &&& forall|i: int| 0 <= i < 4 ==> (#[trigger] self.slots@[i] is Some <==> i < self.count)
    }

    /// Copy `list` inline, in order. More than [`MAX_SAMPLED_BINDINGS`]
    /// entries is a contract violation, excluded by the precondition.
    pub fn new(list: &[BindingRef]) -> (b: Self)
        requires
            list@.len() <= MAX_SAMPLED_BINDINGS,
        ensures
            b@ == list@,
    {
        let mut slots: [Option<BindingRef>; 4] = [None, None, None, None];
        let mut index: usize = 0;
        while index < list.len()
            invariant
                index <= list@.len() <= 4,
                forall|i: int| 0 <= i < index ==> #[trigger] slots@[i] == Some(list@[i]),
                forall|i: int| index <= i < 4 ==> #[trigger] slots@[i] is None,
            decreases list@.len() - index,
        {
            slots[index] = Some(list[index]);
            index = index + 1;
        }
        let b = Bindings { slots, count: list.len() as u8 };
        assert(b@ =~= list@);
        b
    }

    /// How many slots are filled.
    pub fn len(&self) -> (n: usize)
        ensures
            n == self@.len(),
    {
        proof { use_type_invariant(self); }
        self.count as usize
    }

    /// Whether no slots are filled.
    pub fn is_empty(&self) -> (r: bool)
        ensures
            r == (self@.len() == 0),
    {
        self.count == 0
    }

    /// The binding in slot `index`.
    pub fn get(&self, index: usize) -> (b: BindingRef)
        requires
            index < self@.len(),
        ensures
            b == self@[index as int],
    {
        proof { use_type_invariant(self); }
        match self.slots[index] {
            Some(binding) => binding,
            None => {
                assert(false);
                BindingRef { key: 0, sampled_image: None }
            },
        }
    }

    /// The named bindings, in slot order.
    pub fn to_vec(&self) -> (v: Vec<BindingRef>)
        ensures
            v@ == self@,
    {
        let mut out: Vec<BindingRef> = Vec::new();
        let n = self.len();
        let mut index: usize = 0;
        while index < n
            invariant
                n == self@.len(),
                index <= n,
                out@ == self@.take(index as int),
            decreases n - index,
        {
            out.push(self.get(index));
            index = index + 1;
            assert(out@ =~= self@.take(index as int));
        }
        assert(self@.take(n as int) =~= self@);
        out
    }
}

/// One draw: a pipeline, and optionally its geometry, its per-frame
/// bytes, its push-constant bytes and its bindings.
#[derive(Debug, Clone, Copy)]
pub struct Item<'a> {
    /// The pipeline the draw binds.
    pub pipeline: PipelineInfo,
    /// The geometry the draw walks; present exactly when the pipeline
    /// declares per-vertex input.
    pub mesh: Option<MeshRef>,
    /// Per-frame bytes and the instanced draw they feed.
    pub frame_data: Option<FrameDataRef>,
    /// The push-constant block; present exactly when the pipeline
    /// declares a range, and exactly that long.
    pub push_data: Option<&'a [u8]>,
    /// The bindings filling the pipeline's sampled slots, in order.
    pub bindings: Option<Bindings>,
}

impl<'a> Item<'a> {
    /// A draw with `pipeline` and nothing else.
    pub fn new(pipeline: PipelineInfo) -> (item: Self)
        ensures
            item.pipeline == pipeline,
            item.mesh is None,
            item.frame_data is None,
            item.push_data is None,
            item.bindings is None,
    {
        Item { pipeline, mesh: None, frame_data: None, push_data: None, bindings: None }
    }

    /// Walk `mesh`, making this an indexed draw of its whole index list.
    pub fn mesh(self, mesh: MeshRef) -> (item: Self)
        ensures
            item.pipeline == self.pipeline,
            item.mesh == Some(mesh),
            item.frame_data == self.frame_data,
            item.push_data == self.push_data,
            item.bindings == self.bindings,
    {
        Item { mesh: Some(mesh), ..self }
    }

    /// Carry per-frame bytes and an instanced draw in this item.
    pub fn frame_data(self, data: FrameDataRef) -> (item: Self)
        ensures
            item.pipeline == self.pipeline,
            item.mesh == self.mesh,
            item.frame_data == Some(data),
            item.push_data == self.push_data,
            item.bindings == self.bindings,
    {
        Item { frame_data: Some(data), ..self }
    }

    /// Push `bytes` as the pipeline's push-constant block for this draw.
    pub fn push_data(self, bytes: &'a [u8]) -> (item: Self)
        ensures
            item.pipeline == self.pipeline,
            item.mesh == self.mesh,
            item.frame_data == self.frame_data,
            item.push_data == Some(bytes),
            item.bindings == self.bindings,
    {
        Item { push_data: Some(bytes), ..self }
    }

    /// Fill the pipeline's sampled slots with `bindings`, in slot order.
    pub fn bindings(self, bindings: &[BindingRef]) -> (item: Self)
        requires
            bindings@.len() <= MAX_SAMPLED_BINDINGS,
        ensures
            item.pipeline == self.pipeline,
            item.mesh == self.mesh,
            item.frame_data == self.frame_data,
            item.push_data == self.push_data,
            item.bindings matches Some(b) && b@ == bindings@,
    {
        Item { bindings: Some(Bindings::new(bindings)), ..self }
    }
}

/// A fixed-capacity list of draws for one pass, for a frame whose draws
/// are only known as it is built. Seeded with its first item: a pass
/// drawing nothing is written as an empty slice.
pub struct ItemList<'a, const N: usize> {
    items: Vec<Item<'a>>,
}

impl<'a, const N: usize> View for ItemList<'a, N> {
    type V = Seq<Item<'a>>;

    /// The items pushed so far, in order.
    closed spec fn view(&self) -> Seq<Item<'a>> {
        self.items@
    }
}

impl<'a, const N: usize> ItemList<'a, N> {
    /// A list holding `first`. A zero capacity cannot hold the seed: the
    /// precondition excludes it.
    pub fn new(first: Item<'a>) -> (l: Self)
        requires
            N > 0,
        ensures
            l@ == seq![first],
    {
        let mut items: Vec<Item<'a>> = Vec::new();
        items.push(first);
        let l = ItemList { items };
        assert(l@ =~= seq![first]);
        l
    }

    /// Append `item`; pushing past the declared capacity is excluded by
    /// the precondition.
    pub fn push(&mut self, item: Item<'a>)
        requires
            old(self)@.len() < N,
        ensures
            final(self)@ == old(self)@.push(item),
    {
        self.items.push(item);
    }

    /// Append `item` when there is one.
    pub fn push_some(&mut self, item: Option<Item<'a>>)
        requires
            item is Some ==> old(self)@.len() < N,
        ensures
            final(self)@ == (match item {
                Some(i) => old(self)@.push(i),
                None => old(self)@,
            }),
    {
        match item {
            Some(i) => self.push(i),
            None => {},
        }
    }

    /// The items pushed so far, in order — what a pass takes.
    pub fn as_slice(&self) -> (s: &[Item<'a>])
        ensures
            s@ == self@,
    {
        self.items.as_slice()
    }

    /// How many items are in the list.
    pub fn len(&self) -> (n: usize)
        ensures
            n == self@.len(),
    {
        self.items.len()
    }

    /// Whether the list holds no item — never, for a list built by
    /// [`ItemList::new`] and [`ItemList::push`]: it is seeded and nothing
    /// removes an item.
    pub fn is_empty(&self) -> (r: bool)
        ensures
            r == (self@.len() == 0),
    {
        self.items.len() == 0
    }
}

/// What a pass renders into.
#[derive(Debug, Clone, Copy, PartialEq, Eq, Structural)]
pub enum PassTarget {
    /// The target's own surface.
    Surface,
    /// A render image, with the ops for its one attachment.
    Image(ImageRef, Attachment),
}

/// One pass: what it renders into, and the draws it records.
#[derive(Debug, Clone, Copy)]
pub struct Pass<'a> {
    /// Surface passes: exactly one, the surface. Image passes: empty.
    pub color: &'a [Attachment],
    /// The target's own depth image; surface passes only.
    pub depth: Option<Attachment>,
    /// What this pass renders into.
    pub target: PassTarget,
    /// Draws, executed in order.
    pub items: &'a [Item<'a>],
}

impl<'a> Pass<'a> {
    /// A surface pass over `color`, drawing `items` in order, no depth.
    pub fn new(color: &'a [Attachment], items: &'a [Item<'a>]) -> (p: Self)
        ensures
            p.color@ == color@,
            p.depth is None,
            p.target == PassTarget::Surface,
            p.items@ == items@,
    {
        Pass { color, depth: None, target: PassTarget::Surface, items }
    }

    /// A pass rendering into `image` with `attachment`'s ops.
    pub fn render_to(image: ImageRef, attachment: Attachment, items: &'a [Item<'a>]) -> (p: Self)
        ensures
            p.color@.len() == 0,
            p.depth is None,
            p.target == PassTarget::Image(image, attachment),
            p.items@ == items@,
    {
        Pass { color: &[], depth: None, target: PassTarget::Image(image, attachment), items }
    }

    /// Attach the target's depth image to this pass with `depth`'s ops.
    pub fn depth(self, depth: Attachment) -> (p: Self)
        ensures
            p.color@ == self.color@,
            p.depth == Some(depth),
            p.target == self.target,
            p.items@ == self.items@,
    {
        Pass { depth: Some(depth), ..self }
    }
}

/// Everything one frame needs: the passes, in order.
#[derive(Debug, Clone, Copy)]
pub struct RenderDesc<'a> {
    /// The frame: passes recorded in order, one submit.
    pub passes: &'a [Pass<'a>],
}

impl<'a> RenderDesc<'a> {
    /// A frame of `passes`, recorded in order.
    pub fn new(passes: &'a [Pass<'a>]) -> (d: Self)
        ensures
            d.passes@ == passes@,
    {
        RenderDesc { passes }
    }
}

/// The rule a frame breaks, with the pass it breaks it in.
#[derive(Debug, Clone, Copy, PartialEq, Eq, Structural)]
pub enum FrameRefusal {
    /// A frame needs at least one pass.
    NoPasses,
    /// A surface pass carries exactly one colour attachment.
    SurfaceColorCount { pass: usize },
    /// A colour attachment clears to a colour.
    ColorClearKind { pass: usize },
    /// A depth attachment clears to a finite depth in `[0, 1]`.
    DepthClear { pass: usize },
    /// An image pass carries its one attachment in its target.
    ImagePassSlices { pass: usize },
    /// An image attachment clears to its kind's value.
    ImageClear { pass: usize },
    /// `Load` on the frame's first surface use.
    FirstSurfaceLoad { pass: usize },
    /// `Load` on the frame's first depth use.
    FirstDepthLoad { pass: usize },
    /// A fifth distinct render image.
    TooManyImages { pass: usize },
    /// A render image targeted after a pass sampled it.
    RetargetAfterSample { pass: usize },
    /// `Load` on a render image's first use this frame.
    FirstImageLoad { pass: usize },
    /// `Load` on a render image whose last targeting pass discarded.
    LoadAfterDiscard { pass: usize },
    /// A depth-only pipeline outside a depth-image pass.
    DepthOnlyOutsideDepthImage { pass: usize },
    /// A pipeline whose format is not the image pass's.
    ImageFormatMismatch { pass: usize },
    /// A pipeline whose depth state is not the pass's.
    DepthStateMismatch { pass: usize },
    /// Geometry named without per-vertex input, or the reverse.
    GeometryMismatch { pass: usize },
    /// A mesh stride unequal to the pipeline's.
    StrideMismatch { pass: usize },
    /// Push data without a declared range, or the reverse.
    PushPresence { pass: usize },
    /// Push data of a length other than the declared range.
    PushLength { pass: usize },
    /// Bindings without declared slots, or the reverse.
    BindingPresence { pass: usize },
    /// A binding count other than the declared slot count.
    BindingCount { pass: usize },
    /// An item samples the image its own pass renders into.
    SampleOwnTarget { pass: usize },
    /// An item samples an image no pass this frame rendered.
    SampleUnrendered { pass: usize },
    /// An item samples an image whose last targeting pass discarded.
    SampleDiscarded { pass: usize },
    /// A frame needs at least one surface pass.
    NoSurfacePass,
    /// More distinct resources than the retention table holds.
    TooManyResources,
    /// Two items carry different data for one per-frame buffer.
    ConflictingFrameData,
}

// ---- the rules, as specifications ----------------------------------------

/// A depth clear is valid exactly when it is finite and in `[0, 1]`: on
/// the bit pattern, every non-negative value up to `1.0`, and `-0.0`.
pub open spec fn valid_depth_bits(bits: u32) -> bool {
    bits <= 0x3F80_0000 || bits == 0x8000_0000
}

/// Whether a clear value suits an attachment of `kind`.
pub open spec fn clear_suits(kind: RenderImageKind, value: ClearValue) -> bool {
    match (kind, value) {
        (RenderImageKind::Color, ClearValue::Color(_)) => true,
        (RenderImageKind::Depth, ClearValue::Depth(bits)) => valid_depth_bits(bits),
        _ => false,
    }
}

/// Whether an attachment's load, if it clears, clears to a value that
/// suits `kind`.
pub open spec fn load_suits(kind: RenderImageKind, load: LoadOp) -> bool {
    match load {
        LoadOp::Clear(value) => clear_suits(kind, value),
        LoadOp::Load => true,
    }
}

/// The pass-shape rules: the shape follows the target.
pub open spec fn shape_refusal(index: usize, pass: Pass) -> Option<FrameRefusal> {
    match pass.target {
        PassTarget::Surface => {
            if pass.color@.len() != 1 {
                Some(FrameRefusal::SurfaceColorCount { pass: index })
            } else if !(match pass.color@[0].load {
                LoadOp::Clear(value) => value is Color,
                LoadOp::Load => true,
            }) {
                Some(FrameRefusal::ColorClearKind { pass: index })
            } else if pass.depth matches Some(depth) && !load_suits(RenderImageKind::Depth, depth.load) {
                Some(FrameRefusal::DepthClear { pass: index })
            } else {
                None
            }
        },
        PassTarget::Image(image, attachment) => {
            if !(pass.color@.len() == 0 && pass.depth is None) {
                Some(FrameRefusal::ImagePassSlices { pass: index })
            } else if !load_suits(image.kind, attachment.load) {
                Some(FrameRefusal::ImageClear { pass: index })
            } else {
                None
            }
        },
    }
}

/// Whether a pass carries a depth attachment: the target's own depth on
/// a surface pass, the image itself on a depth-image pass.
pub open spec fn spec_pass_has_depth(pass: Pass) -> bool {
    match pass.target {
        PassTarget::Surface => pass.depth is Some,
        PassTarget::Image(image, _) => image.kind == RenderImageKind::Depth,
    }
}

/// The per-item rules, in the order they are checked.
pub open spec fn item_refusal(index: usize, pass: Pass, item: Item) -> Option<FrameRefusal> {
    let pipeline = item.pipeline;
    let depth_image_pass = pass.target matches PassTarget::Image(image, _) && image.kind == RenderImageKind::Depth;
    if !(depth_image_pass || pipeline.format != TargetFormat::DepthOnly) {
        Some(FrameRefusal::DepthOnlyOutsideDepthImage { pass: index })
    } else if pass.target matches PassTarget::Image(image, _) && pipeline.format != (if image.kind
        == RenderImageKind::Depth {
        TargetFormat::DepthOnly
    } else {
        TargetFormat::Rgba8Unorm
    }) {
        Some(FrameRefusal::ImageFormatMismatch { pass: index })
    } else if pipeline.depth != spec_pass_has_depth(pass) {
        Some(FrameRefusal::DepthStateMismatch { pass: index })
    } else if pipeline.vertex_input != item.mesh is Some {
        Some(FrameRefusal::GeometryMismatch { pass: index })
    } else if item.mesh matches Some(mesh) && mesh.vertex_stride != pipeline.vertex_stride {
        Some(FrameRefusal::StrideMismatch { pass: index })
    } else if (item.push_data is Some) != (pipeline.push_constant_size > 0) {
        Some(FrameRefusal::PushPresence { pass: index })
    } else if item.push_data matches Some(bytes) && bytes@.len() != pipeline.push_constant_size {
        Some(FrameRefusal::PushLength { pass: index })
    } else if (item.bindings is Some) != (pipeline.sampled_bindings > 0) {
        Some(FrameRefusal::BindingPresence { pass: index })
    } else if item.bindings matches Some(bindings) && bindings@.len() != pipeline.sampled_bindings {
        Some(FrameRefusal::BindingCount { pass: index })
    } else {
        None
    }
}

/// The first item rule broken among `items`.
pub open spec fn items_refusal(index: usize, pass: Pass, items: Seq<Item>) -> Option<FrameRefusal>
    decreases items.len(),
{
    if items.len() == 0 {
        None
    } else {
        match items_refusal(index, pass, items.drop_last()) {
            Some(refusal) => Some(refusal),
            None => item_refusal(index, pass, items.last()),
        }
    }
}

// ---- the frame walk, as a specification -----------------------------------

/// What the frame has done so far to one render image it targeted.
#[derive(Debug, Clone, Copy, PartialEq, Eq, Structural)]
pub struct ImageEntry {
    /// The image's identity.
    pub key: u64,
    /// Its kind, as first targeted.
    pub kind: RenderImageKind,
    /// Whether a pass has sampled it.
    pub sampled: bool,
    /// Whether its last targeting pass discarded its contents.
    pub discarded: bool,
}

/// The walk's state: which identities the frame has used, and how.
#[verifier::ext_equal]
pub struct WalkState {
    /// Whether a pass has rendered into the surface.
    pub surface_used: bool,
    /// Whether a pass has carried the target's depth image.
    pub depth_used: bool,
    /// The targeted render images, in first-target order.
    pub images: Seq<ImageEntry>,
}

/// The state a frame starts in: nothing used.
pub open spec fn initial_walk() -> WalkState {
    WalkState { surface_used: false, depth_used: false, images: Seq::empty() }
}

/// Where `key` sits among `images`, if it does.
pub open spec fn find_key(images: Seq<ImageEntry>, key: u64) -> Option<int> {
    if exists|i: int| 0 <= i < images.len() && images[i].key == key {
        Some(choose|i: int| 0 <= i < images.len() && images[i].key == key)
    } else {
        None
    }
}

/// Keys appear at most once, and there are at most four of them.
pub open spec fn images_wf(images: Seq<ImageEntry>) -> bool {
    &&& images.len() <= MAX_FRAME_RENDER_IMAGES
    &&& forall|i: int, j: int| 0 <= i < images.len() && 0 <= j < images.len() && i != j ==> images[i].key != images[j].key
}

/// What one pass does to its target identities.
#[derive(Debug, Clone, Copy, PartialEq, Eq)]
pub struct TargetUses {
    /// The colour attachment's use pair; `None` for a depth-image pass.
    pub color: Option<(ImageUse, ImageUse)>,
    /// The depth attachment's use pair, if the pass carries depth.
    pub depth: Option<(ImageUse, ImageUse)>,
}

/// The use pair of an image pass's one attachment.
pub open spec fn image_pair(first_use: bool, depth: bool) -> (ImageUse, ImageUse) {
    if depth {
        if first_use {
            (ImageUse::RenderDepthFirstUse, ImageUse::DepthAttachment)
        } else {
            (ImageUse::DepthAttachment, ImageUse::DepthAttachment)
        }
    } else if first_use {
        (ImageUse::RenderColorFirstUse, ImageUse::ColorAttachment)
    } else {
        (ImageUse::ColorAttachment, ImageUse::ColorAttachment)
    }
}

/// The walk over one pass's target: the identity rules, and the use
/// pairs its attachments transition through.
pub open spec fn target_step(state: WalkState, index: usize, pass: Pass) -> Result<(WalkState, TargetUses), FrameRefusal> {
    match pass.target {
        PassTarget::Surface => {
            let color = pass.color@[0];
            if !state.surface_used && color.load is Load {
                Err(FrameRefusal::FirstSurfaceLoad { pass: index })
            } else {
                let color_pair = if state.surface_used {
                    (ImageUse::ColorAttachment, ImageUse::ColorAttachment)
                } else {
                    (ImageUse::ColorAttachmentFirstUse, ImageUse::ColorAttachment)
                };
                match pass.depth {
                    None => Ok((
                        WalkState { surface_used: true, ..state },
                        TargetUses { color: Some(color_pair), depth: None },
                    )),
                    Some(depth) => {
                        if !state.depth_used && depth.load is Load {
                            Err(FrameRefusal::FirstDepthLoad { pass: index })
                        } else {
                            let depth_pair = if state.depth_used {
                                (ImageUse::DepthAttachment, ImageUse::DepthAttachment)
                            } else {
                                (ImageUse::DepthAttachmentFirstUse, ImageUse::DepthAttachment)
                            };
                            Ok((
                                WalkState { surface_used: true, depth_used: true, ..state },
                                TargetUses { color: Some(color_pair), depth: Some(depth_pair) },
                            ))
                        }
                    },
                }
            }
        },
        PassTarget::Image(image, attachment) => {
            let known = find_key(state.images, image.key);
            if known is None && state.images.len() >= MAX_FRAME_RENDER_IMAGES {
                Err(FrameRefusal::TooManyImages { pass: index })
            } else {
                let first_use = known is None;
                let slot = match known {
                    Some(i) => i,
                    None => state.images.len() as int,
                };
                let images = if first_use {
                    state.images.push(ImageEntry { key: image.key, kind: image.kind, sampled: false, discarded: false })
                } else {
                    state.images
                };
                let entry = images[slot];
                if entry.sampled {
                    Err(FrameRefusal::RetargetAfterSample { pass: index })
                } else if first_use && attachment.load is Load {
                    Err(FrameRefusal::FirstImageLoad { pass: index })
                } else if !first_use && attachment.load is Load && entry.discarded {
                    Err(FrameRefusal::LoadAfterDiscard { pass: index })
                } else {
                    let updated = ImageEntry { discarded: attachment.store is Discard, ..entry };
                    let depth = image.kind == RenderImageKind::Depth;
                    Ok((
                        WalkState { images: images.update(slot, updated), ..state },
                        if depth {
                            TargetUses { color: None, depth: Some(image_pair(first_use, true)) }
                        } else {
                            TargetUses { color: Some(image_pair(first_use, false)), depth: None }
                        },
                    ))
                }
            }
        },
    }
}

/// Whether every use pair of `uses` is a pass boundary of the barrier
/// table.
pub open spec fn uses_are_boundaries(uses: TargetUses) -> bool {
    &&& (uses.color matches Some(pair) ==> spec_is_pass_boundary(pair.0, pair.1))
    &&& (uses.depth matches Some(pair) ==> spec_is_pass_boundary(pair.0, pair.1))
}

/// Whether every sampling transition of `uses` is a pass boundary of the
/// barrier table.
pub open spec fn samples_are_boundaries(uses: Seq<SampleUse>) -> bool {
    forall|i: int| 0 <= i < uses.len() ==> spec_is_pass_boundary(#[trigger] uses[i].uses.0, uses[i].uses.1)
}

/// One sampling transition a pass forces: the image, its kind, and the
/// use pair. Emitted once per image, at the first sampling pass.
#[derive(Debug, Clone, Copy, PartialEq, Eq)]
pub struct SampleUse {
    /// The sampled image's identity.
    pub image: u64,
    /// Its kind.
    pub kind: RenderImageKind,
    /// Its transition.
    pub uses: (ImageUse, ImageUse),
}

/// The use pair a first sampling of an image of `kind` transitions
/// through.
pub open spec fn sample_pair(kind: RenderImageKind) -> (ImageUse, ImageUse) {
    match kind {
        RenderImageKind::Depth => (ImageUse::DepthAttachment, ImageUse::SampledInPass),
        RenderImageKind::Color => (ImageUse::ColorAttachment, ImageUse::SampledInPass),
    }
}

/// The image a pass renders into, if it renders into one.
pub open spec fn own_target(pass: Pass) -> Option<u64> {
    match pass.target {
        PassTarget::Image(image, _) => Some(image.key),
        PassTarget::Surface => None,
    }
}

/// The walk over one binding a pass samples through.
pub open spec fn sample_step(state: WalkState, index: usize, own: Option<u64>, binding: BindingRef) -> Result<(WalkState, Seq<SampleUse>), FrameRefusal> {
    match binding.sampled_image {
        None => Ok((state, Seq::empty())),
        Some(key) => {
            if own == Some(key) {
                Err(FrameRefusal::SampleOwnTarget { pass: index })
            } else {
                match find_key(state.images, key) {
                    None => Err(FrameRefusal::SampleUnrendered { pass: index }),
                    Some(slot) => {
                        let entry = state.images[slot];
                        if entry.discarded {
                            Err(FrameRefusal::SampleDiscarded { pass: index })
                        } else if entry.sampled {
                            Ok((state, Seq::empty()))
                        } else {
                            Ok((
                                WalkState {
                                    images: state.images.update(slot, ImageEntry { sampled: true, ..entry }),
                                    ..state
                                },
                                seq![SampleUse { image: key, kind: entry.kind, uses: sample_pair(entry.kind) }],
                            ))
                        }
                    },
                }
            }
        },
    }
}

/// The walk over a run of bindings.
pub open spec fn sample_bindings(state: WalkState, index: usize, own: Option<u64>, bindings: Seq<BindingRef>) -> Result<(WalkState, Seq<SampleUse>), FrameRefusal>
    decreases bindings.len(),
{
    if bindings.len() == 0 {
        Ok((state, Seq::empty()))
    } else {
        match sample_bindings(state, index, own, bindings.drop_last()) {
            Err(refusal) => Err(refusal),
            Ok((after, uses)) => match sample_step(after, index, own, bindings.last()) {
                Err(refusal) => Err(refusal),
                Ok((last, more)) => Ok((last, uses + more)),
            },
        }
    }
}

/// An item's bindings as a sequence; none reads as empty.
pub open spec fn item_bindings(item: Item) -> Seq<BindingRef> {
    match item.bindings {
        Some(bindings) => bindings@,
        None => Seq::empty(),
    }
}

/// The walk over the bindings of a run of items.
pub open spec fn sample_items(state: WalkState, index: usize, own: Option<u64>, items: Seq<Item>) -> Result<(WalkState, Seq<SampleUse>), FrameRefusal>
    decreases items.len(),
{
    if items.len() == 0 {
        Ok((state, Seq::empty()))
    } else {
        match sample_items(state, index, own, items.drop_last()) {
            Err(refusal) => Err(refusal),
            Ok((after, uses)) => match sample_bindings(after, index, own, item_bindings(items.last())) {
                Err(refusal) => Err(refusal),
                Ok((last, more)) => Ok((last, uses + more)),
            },
        }
    }
}

/// The whole contract over one pass: its shape, its target, its items,
/// its sampling — in that order.
pub open spec fn pass_step(state: WalkState, index: usize, pass: Pass) -> Result<WalkState, FrameRefusal> {
    match shape_refusal(index, pass) {
        Some(refusal) => Err(refusal),
        None => match target_step(state, index, pass) {
            Err(refusal) => Err(refusal),
            Ok((after, _)) => match items_refusal(index, pass, pass.items@) {
                Some(refusal) => Err(refusal),
                None => match sample_items(after, index, own_target(pass), pass.items@) {
                    Err(refusal) => Err(refusal),
                    Ok((last, _)) => Ok(last),
                },
            },
        },
    }
}

/// The walk over a run of passes.
pub open spec fn walk_passes(passes: Seq<Pass>) -> Result<WalkState, FrameRefusal>
    decreases passes.len(),
{
    if passes.len() == 0 {
        Ok(initial_walk())
    } else {
        match walk_passes(passes.drop_last()) {
            Err(refusal) => Err(refusal),
            Ok(state) => pass_step(state, (passes.len() - 1) as usize, passes.last()),
        }
    }
}

// ---- retention, as a specification -----------------------------------------

/// The retention count: distinct keys seen, and each buffer's claim.
#[verifier::ext_equal]
pub struct RetentionState {
    /// Distinct resources, in first-mention order.
    pub seen: Seq<u64>,
    /// Each per-frame buffer's first claim.
    pub buffers: Seq<FrameDataRef>,
}

/// Nothing retained.
pub open spec fn initial_retention() -> RetentionState {
    RetentionState { seen: Seq::empty(), buffers: Seq::empty() }
}

/// Count one mention of a repeatable resource.
pub open spec fn note_key(state: RetentionState, key: u64) -> Result<RetentionState, FrameRefusal> {
    if state.seen.contains(key) {
        Ok(state)
    } else if state.seen.len() >= MAX_RETAINED_RESOURCES {
        Err(FrameRefusal::TooManyResources)
    } else {
        Ok(RetentionState { seen: state.seen.push(key), ..state })
    }
}

/// The first claim recorded for `buffer`, if any.
pub open spec fn claim_of(buffers: Seq<FrameDataRef>, buffer: u64) -> Option<FrameDataRef> {
    if exists|i: int| 0 <= i < buffers.len() && buffers[i].buffer == buffer {
        Some(buffers[choose|i: int| 0 <= i < buffers.len() && buffers[i].buffer == buffer])
    } else {
        None
    }
}

/// Count one item's per-frame data: a repeat of the same data is one
/// copy; different data for one buffer is refused.
pub open spec fn note_frame_data(state: RetentionState, data: FrameDataRef) -> Result<RetentionState, FrameRefusal> {
    match claim_of(state.buffers, data.buffer) {
        Some(prior) => if prior.same_data(data) {
            Ok(state)
        } else {
            Err(FrameRefusal::ConflictingFrameData)
        },
        None => match note_key(state, data.buffer) {
            Err(refusal) => Err(refusal),
            Ok(after) => Ok(RetentionState { buffers: after.buffers.push(data), ..after }),
        },
    }
}

/// Count a run of bindings.
pub open spec fn note_bindings(state: RetentionState, bindings: Seq<BindingRef>) -> Result<RetentionState, FrameRefusal>
    decreases bindings.len(),
{
    if bindings.len() == 0 {
        Ok(state)
    } else {
        match note_bindings(state, bindings.drop_last()) {
            Err(refusal) => Err(refusal),
            Ok(after) => note_key(after, bindings.last().key),
        }
    }
}

/// Count one item: its mesh, its bindings, its per-frame data.
pub open spec fn note_item(state: RetentionState, item: Item) -> Result<RetentionState, FrameRefusal> {
    let after_mesh = match item.mesh {
        Some(mesh) => note_key(state, mesh.key),
        None => Ok(state),
    };
    match after_mesh {
        Err(refusal) => Err(refusal),
        Ok(after) => match note_bindings(after, item_bindings(item)) {
            Err(refusal) => Err(refusal),
            Ok(last) => match item.frame_data {
                Some(data) => note_frame_data(last, data),
                None => Ok(last),
            },
        },
    }
}

/// Count a run of items.
pub open spec fn note_items(state: RetentionState, items: Seq<Item>) -> Result<RetentionState, FrameRefusal>
    decreases items.len(),
{
    if items.len() == 0 {
        Ok(state)
    } else {
        match note_items(state, items.drop_last()) {
            Err(refusal) => Err(refusal),
            Ok(after) => note_item(after, items.last()),
        }
    }
}

/// Count one pass: its target image, then its items.
pub open spec fn note_pass(state: RetentionState, pass: Pass) -> Result<RetentionState, FrameRefusal> {
    let after_target = match pass.target {
        PassTarget::Image(image, _) => note_key(state, image.key),
        PassTarget::Surface => Ok(state),
    };
    match after_target {
        Err(refusal) => Err(refusal),
        Ok(after) => note_items(after, pass.items@),
    }
}

/// Count a run of passes.
pub open spec fn note_passes(passes: Seq<Pass>) -> Result<RetentionState, FrameRefusal>
    decreases passes.len(),
{
    if passes.len() == 0 {
        Ok(initial_retention())
    } else {
        match note_passes(passes.drop_last()) {
            Err(refusal) => Err(refusal),
            Ok(state) => note_pass(state, passes.last()),
        }
    }
}

/// The frame contract's answer: the first rule a frame breaks, walking
/// it pass by pass; then the surface rule; then retention.
pub open spec fn frame_outcome(passes: Seq<Pass>) -> Result<(), FrameRefusal> {
    if passes.len() == 0 {
        Err(FrameRefusal::NoPasses)
    } else {
        match walk_passes(passes) {
            Err(refusal) => Err(refusal),
            Ok(state) => if !state.surface_used {
                Err(FrameRefusal::NoSurfacePass)
            } else {
                match note_passes(passes) {
                    Err(refusal) => Err(refusal),
                    Ok(_) => Ok(()),
                }
            },
        }
    }
}

} // verus!
