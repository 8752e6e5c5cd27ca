//! The frame walk and the frame contract, executed: one state machine
//! whose every step is the specification's step, consumed by the
//! contract before any GPU call and by each record path for its barrier
//! pairs.

use vstd::prelude::*;
use crate::frame::{
    find_key, item_bindings, Bindings, frame_outcome, images_wf, initial_walk, item_refusal, items_refusal,
    load_suits, own_target, pass_step, sample_bindings, sample_items, sample_step, shape_refusal,
    samples_are_boundaries, spec_pass_has_depth, target_step, uses_are_boundaries, valid_depth_bits, walk_passes, BindingRef, ClearValue,
    FrameRefusal, ImageEntry, Item, LoadOp, Pass, PassTarget, RenderDesc, SampleUse, StoreOp,
    TargetUses, WalkState, MAX_FRAME_RENDER_IMAGES,
};
use crate::pipeline::TargetFormat;
use crate::render_image::RenderImageKind;
use crate::retention::check_retention_bound;
use crate::transition::{spec_is_pass_boundary, ImageUse};

verus! {

// ---- how a fold that stops stays stopped ----------------------------------

proof fn lemma_walk_stops(passes: Seq<Pass>, k: int)
    requires
        0 <= k <= passes.len(),
        walk_passes(passes.take(k)) is Err,
    ensures
        walk_passes(passes) == walk_passes(passes.take(k)),
    decreases passes.len() - k,
{
    if k == passes.len() {
        assert(passes.take(k) =~= passes);
    } else {
        assert(passes.take(k + 1).drop_last() =~= passes.take(k));
        lemma_walk_stops(passes, k + 1);
    }
}

proof fn lemma_items_stop(index: usize, pass: Pass, items: Seq<Item>, k: int)
    requires
        0 <= k <= items.len(),
        items_refusal(index, pass, items.take(k)) is Some,
    ensures
        items_refusal(index, pass, items) == items_refusal(index, pass, items.take(k)),
    decreases items.len() - k,
{
    if k == items.len() {
        assert(items.take(k) =~= items);
    } else {
        assert(items.take(k + 1).drop_last() =~= items.take(k));
        lemma_items_stop(index, pass, items, k + 1);
    }
}

proof fn lemma_sample_items_stop(state: WalkState, index: usize, own: Option<u64>, items: Seq<Item>, k: int)
    requires
        0 <= k <= items.len(),
        sample_items(state, index, own, items.take(k)) is Err,
    ensures
        sample_items(state, index, own, items) == sample_items(state, index, own, items.take(k)),
    decreases items.len() - k,
{
    if k == items.len() {
        assert(items.take(k) =~= items);
    } else {
        assert(items.take(k + 1).drop_last() =~= items.take(k));
        lemma_sample_items_stop(state, index, own, items, k + 1);
    }
}

proof fn lemma_sample_bindings_stop(state: WalkState, index: usize, own: Option<u64>, bindings: Seq<BindingRef>, k: int)
    requires
        0 <= k <= bindings.len(),
        sample_bindings(state, index, own, bindings.take(k)) is Err,
    ensures
        sample_bindings(state, index, own, bindings) == sample_bindings(state, index, own, bindings.take(k)),
    decreases bindings.len() - k,
{
    if k == bindings.len() {
        assert(bindings.take(k) =~= bindings);
    } else {
        assert(bindings.take(k + 1).drop_last() =~= bindings.take(k));
        lemma_sample_bindings_stop(state, index, own, bindings, k + 1);
    }
}

/// A key found at `slot` among distinct keys is the one `find_key`
/// names.
proof fn lemma_find_at(images: Seq<ImageEntry>, key: u64, slot: int)
    requires
        images_wf(images),
        0 <= slot < images.len(),
        images[slot].key == key,
    ensures
        find_key(images, key) == Some(slot),
{
    let chosen = choose|i: int| 0 <= i < images.len() && images[i].key == key;
    assert(0 <= chosen < images.len() && images[chosen].key == key);
}

// ---- the rules, executed ---------------------------------------------------

/// Whether a depth clear's bit pattern is finite and in `[0, 1]`.
pub fn is_valid_depth_bits(bits: u32) -> (r: bool)
    ensures
        r == valid_depth_bits(bits),
{
    bits <= 0x3F80_0000 || bits == 0x8000_0000
}

fn suits(kind: RenderImageKind, load: LoadOp) -> (r: bool)
    ensures
        r == load_suits(kind, load),
{
    match load {
        LoadOp::Load => true,
        LoadOp::Clear(value) => match (kind, value) {
            (RenderImageKind::Color, ClearValue::Color(_)) => true,
            (RenderImageKind::Depth, ClearValue::Depth(bits)) => is_valid_depth_bits(bits),
            _ => false,
        },
    }
}

/// The pass-shape rules: the first one `pass` breaks, if any.
pub fn check_pass_shape(index: usize, pass: &Pass) -> (r: Option<FrameRefusal>)
    ensures
        r == shape_refusal(index, *pass),
{
    match pass.target {
        PassTarget::Surface => {
            if pass.color.len() != 1 {
                return Some(FrameRefusal::SurfaceColorCount { pass: index });
            }
            let color_ok = match pass.color[0].load {
                LoadOp::Clear(value) => match value {
                    ClearValue::Color(_) => true,
                    ClearValue::Depth(_) => false,
                },
                LoadOp::Load => true,
            };
            if !color_ok {
                return Some(FrameRefusal::ColorClearKind { pass: index });
            }
            match pass.depth {
                Some(depth) => if !suits(RenderImageKind::Depth, depth.load) {
                    Some(FrameRefusal::DepthClear { pass: index })
                } else {
                    None
                },
                None => None,
            }
        },
        PassTarget::Image(image, attachment) => {
            if !(pass.color.len() == 0 && pass.depth.is_none()) {
                return Some(FrameRefusal::ImagePassSlices { pass: index });
            }
            if !suits(image.kind, attachment.load) {
                Some(FrameRefusal::ImageClear { pass: index })
            } else {
                None
            }
        },
    }
}

/// Whether a pass carries a depth attachment.
pub fn pass_has_depth(pass: &Pass) -> (r: bool)
    ensures
        r == spec_pass_has_depth(*pass),
{
    match pass.target {
        PassTarget::Surface => pass.depth.is_some(),
        PassTarget::Image(image, _) => image.kind == RenderImageKind::Depth,
    }
}

/// The per-item rules: the first one `item` breaks in `pass`, if any.
pub fn check_item(index: usize, pass: &Pass, item: &Item) -> (r: Option<FrameRefusal>)
    ensures
        r == item_refusal(index, *pass, *item),
{
    let pipeline = item.pipeline;
    let depth_image_pass = match pass.target {
        PassTarget::Image(image, _) => image.kind == RenderImageKind::Depth,
        PassTarget::Surface => false,
    };
    if !(depth_image_pass || pipeline.format != TargetFormat::DepthOnly) {
        return Some(FrameRefusal::DepthOnlyOutsideDepthImage { pass: index });
    }
    if let PassTarget::Image(image, _) = pass.target {
        let expected = if image.kind == RenderImageKind::Depth {
            TargetFormat::DepthOnly
        } else {
            TargetFormat::Rgba8Unorm
        };
        if pipeline.format != expected {
            return Some(FrameRefusal::ImageFormatMismatch { pass: index });
        }
    }
    if pipeline.depth != pass_has_depth(pass) {
        return Some(FrameRefusal::DepthStateMismatch { pass: index });
    }
    if pipeline.vertex_input != item.mesh.is_some() {
        return Some(FrameRefusal::GeometryMismatch { pass: index });
    }
    if let Some(mesh) = item.mesh {
        if mesh.vertex_stride != pipeline.vertex_stride {
            return Some(FrameRefusal::StrideMismatch { pass: index });
        }
    }
    if item.push_data.is_some() != (pipeline.push_constant_size > 0) {
        return Some(FrameRefusal::PushPresence { pass: index });
    }
    if let Some(bytes) = item.push_data {
        if bytes.len() as u64 != pipeline.push_constant_size as u64 {
            return Some(FrameRefusal::PushLength { pass: index });
        }
    }
    if item.bindings.is_some() != (pipeline.sampled_bindings > 0) {
        return Some(FrameRefusal::BindingPresence { pass: index });
    }
    if let Some(bindings) = item.bindings {
        if bindings.len() as u64 != pipeline.sampled_bindings as u64 {
            return Some(FrameRefusal::BindingCount { pass: index });
        }
    }
    None
}

// ---- the walk yields table pairs ----------------------------------------------

proof fn lemma_target_uses_are_boundaries(state: WalkState, index: usize, pass: Pass)
    ensures
        target_step(state, index, pass) matches Ok((_, uses)) ==> uses_are_boundaries(uses),
{
}

proof fn lemma_sample_bindings_are_boundaries(state: WalkState, index: usize, own: Option<u64>, bindings: Seq<BindingRef>)
    ensures
        sample_bindings(state, index, own, bindings) matches Ok((_, uses)) ==> samples_are_boundaries(uses),
    decreases bindings.len(),
{
    if bindings.len() > 0 {
        lemma_sample_bindings_are_boundaries(state, index, own, bindings.drop_last());
        if let Ok((mid, first)) = sample_bindings(state, index, own, bindings.drop_last()) {
            if let Ok((_, more)) = sample_step(mid, index, own, bindings.last()) {
                let all = first + more;
                assert forall|i: int| 0 <= i < all.len() implies spec_is_pass_boundary(
                    #[trigger] all[i].uses.0,
                    all[i].uses.1,
                ) by {
                    if i < first.len() {
                        assert(all[i] == first[i]);
                    } else {
                        assert(all[i] == more[i - first.len()]);
                    }
                }
            }
        }
    }
}

proof fn lemma_sample_items_are_boundaries(state: WalkState, index: usize, own: Option<u64>, items: Seq<Item>)
    ensures
        sample_items(state, index, own, items) matches Ok((_, uses)) ==> samples_are_boundaries(uses),
    decreases items.len(),
{
    if items.len() > 0 {
        lemma_sample_items_are_boundaries(state, index, own, items.drop_last());
        if let Ok((mid, first)) = sample_items(state, index, own, items.drop_last()) {
            lemma_sample_bindings_are_boundaries(mid, index, own, item_bindings(items.last()));
            if let Ok((_, more)) = sample_bindings(mid, index, own, item_bindings(items.last())) {
                let all = first + more;
                assert forall|i: int| 0 <= i < all.len() implies spec_is_pass_boundary(
                    #[trigger] all[i].uses.0,
                    all[i].uses.1,
                ) by {
                    if i < first.len() {
                        assert(all[i] == first[i]);
                    } else {
                        assert(all[i] == more[i - first.len()]);
                    }
                }
            }
        }
    }
}

// ---- the walk, executed ---------------------------------------------------

/// The frame's per-identity image walk: which attachment identities
/// this frame has used, and how.
pub struct FrameWalk {
    surface_color_used: bool,
    target_depth_used: bool,
    images: Vec<ImageEntry>,
}

impl View for FrameWalk {
    type V = WalkState;

    closed spec fn view(&self) -> WalkState {
        WalkState { surface_used: self.surface_color_used, depth_used: self.target_depth_used, images: self.images@ }
    }
}

impl FrameWalk {
    /// Distinct image keys, at most four of them.
    pub closed spec fn wf(&self) -> bool {
        images_wf(self.images@)
    }

    /// A walk at the start of a frame: nothing used.
    pub fn new() -> (walk: Self)
        ensures
            walk@ == initial_walk(),
            walk.wf(),
    {
        let walk = FrameWalk { surface_color_used: false, target_depth_used: false, images: Vec::new() };
        assert(walk@ =~= initial_walk());
        walk
    }

    /// Whether any pass so far targeted the surface.
    pub fn surface_used(&self) -> (r: bool)
        ensures
            r == self@.surface_used,
    {
        self.surface_color_used
    }

#[verifier::loop_isolation(false)]
    fn find(&self, key: u64) -> (r: Option<usize>)
        requires
            self.wf(),
        ensures
            match r {
                Some(slot) => slot < self.images@.len() && find_key(self@.images, key) == Some(slot as int),
                None => find_key(self@.images, key) is None,
            },
    {
        let mut slot: usize = 0;
        while slot < self.images.len()
            invariant
                slot <= self.images@.len(),
                forall|i: int| 0 <= i < slot ==> self.images@[i].key != key,
            decreases self.images@.len() - slot,
        {
            if self.images[slot].key == key {
                proof { lemma_find_at(self.images@, key, slot as int); }
                return Some(slot);
            }
            slot = slot + 1;
        }
        None
    }

    /// Advance the walk over `pass`'s target, returning the use pairs its
    /// attachments transition through — or the identity rule it breaks.
    fn try_target(&mut self, index: usize, pass: &Pass) -> (r: Result<TargetUses, FrameRefusal>)
        requires
            old(self).wf(),
            shape_refusal(index, *pass) is None,
        ensures
            final(self).wf(),
            match target_step(old(self)@, index, *pass) {
                Err(refusal) => r == Err::<TargetUses, FrameRefusal>(refusal),
                Ok((state, uses)) => r == Ok::<TargetUses, FrameRefusal>(uses) && final(self)@ == state,
            },
    {
        match pass.target {
            PassTarget::Surface => {
                let color = pass.color[0];
                if !self.surface_color_used && matches!(color.load, LoadOp::Load) {
                    return Err(FrameRefusal::FirstSurfaceLoad { pass: index });
                }
                let color_pair = if self.surface_color_used {
                    (ImageUse::ColorAttachment, ImageUse::ColorAttachment)
                } else {
                    (ImageUse::ColorAttachmentFirstUse, ImageUse::ColorAttachment)
                };
                match pass.depth {
                    None => {
                        self.surface_color_used = true;
                        Ok(TargetUses { color: Some(color_pair), depth: None })
                    },
                    Some(depth) => {
                        if !self.target_depth_used && matches!(depth.load, LoadOp::Load) {
                            return Err(FrameRefusal::FirstDepthLoad { pass: index });
                        }
                        let depth_pair = if self.target_depth_used {
                            (ImageUse::DepthAttachment, ImageUse::DepthAttachment)
                        } else {
                            (ImageUse::DepthAttachmentFirstUse, ImageUse::DepthAttachment)
                        };
                        self.surface_color_used = true;
                        self.target_depth_used = true;
                        Ok(TargetUses { color: Some(color_pair), depth: Some(depth_pair) })
                    },
                }
            },
            PassTarget::Image(image, attachment) => {
                let ghost before = self.images@;
                let known = self.find(image.key);
                if known.is_none() && self.images.len() >= MAX_FRAME_RENDER_IMAGES {
                    return Err(FrameRefusal::TooManyImages { pass: index });
                }
                let first_use = known.is_none();
                let slot = match known {
                    Some(slot) => slot,
                    None => {
                        let entry = ImageEntry { key: image.key, kind: image.kind, sampled: false, discarded: false };
                        self.images.push(entry);
                        proof {
                            assert forall|i: int, j: int|
                                0 <= i < self.images@.len() && 0 <= j < self.images@.len() && i != j
                                implies self.images@[i].key != self.images@[j].key by {
                                if i < before.len() && j < before.len() {
                                } else if i == before.len() as int {
                                    assert(before[j].key != image.key);
                                } else {
                                    assert(before[i].key != image.key);
                                }
                            }
                        }
                        self.images.len() - 1
                    },
                };
                let entry = self.images[slot];
                if entry.sampled {
                    return Err(FrameRefusal::RetargetAfterSample { pass: index });
                }
                let loads = matches!(attachment.load, LoadOp::Load);
                if first_use && loads {
                    return Err(FrameRefusal::FirstImageLoad { pass: index });
                }
                if !first_use && loads && entry.discarded {
                    return Err(FrameRefusal::LoadAfterDiscard { pass: index });
                }
                let updated = ImageEntry { discarded: matches!(attachment.store, StoreOp::Discard), ..entry };
                self.images.set(slot, updated);
                let depth = image.kind == RenderImageKind::Depth;
                let pair = if depth {
                    if first_use {
                        (ImageUse::RenderDepthFirstUse, ImageUse::DepthAttachment)
                    } else {
                        (ImageUse::DepthAttachment, ImageUse::DepthAttachment)
                    }
                } else if first_use {
                    (ImageUse::RenderColorFirstUse, ImageUse::ColorAttachment)
                } else {
                    (ImageUse::ColorAttachment, ImageUse::ColorAttachment)
                };
                if depth {
                    Ok(TargetUses { color: None, depth: Some(pair) })
                } else {
                    Ok(TargetUses { color: Some(pair), depth: None })
                }
            },
        }
    }

    fn sample_one(&mut self, index: usize, own: Option<u64>, binding: BindingRef) -> (r: Result<Option<SampleUse>, FrameRefusal>)
        requires
            old(self).wf(),
        ensures
            final(self).wf(),
            match sample_step(old(self)@, index, own, binding) {
                Err(refusal) => r == Err::<Option<SampleUse>, FrameRefusal>(refusal),
                Ok((state, uses)) => final(self)@ == state && match r {
                    Ok(Some(u)) => uses == seq![u],
                    Ok(None) => uses == Seq::<SampleUse>::empty(),
                    Err(_) => false,
                },
            },
    {
        let key = match binding.sampled_image {
            None => return Ok(None),
            Some(key) => key,
        };
        if own == Some(key) {
            return Err(FrameRefusal::SampleOwnTarget { pass: index });
        }
        let slot = match self.find(key) {
            None => return Err(FrameRefusal::SampleUnrendered { pass: index }),
            Some(slot) => slot,
        };
        let entry = self.images[slot];
        if entry.discarded {
            return Err(FrameRefusal::SampleDiscarded { pass: index });
        }
        if entry.sampled {
            return Ok(None);
        }
        let ghost before = self.images@;
        self.images.set(slot, ImageEntry { sampled: true, ..entry });
        proof {
            assert forall|i: int, j: int|
                0 <= i < self.images@.len() && 0 <= j < self.images@.len() && i != j
                implies self.images@[i].key != self.images@[j].key by {
                assert(before[i].key != before[j].key);
            }
        }
        let uses = match entry.kind {
            RenderImageKind::Depth => (ImageUse::DepthAttachment, ImageUse::SampledInPass),
            RenderImageKind::Color => (ImageUse::ColorAttachment, ImageUse::SampledInPass),
        };
        Ok(Some(SampleUse { image: key, kind: entry.kind, uses }))
    }

    #[verifier::loop_isolation(false)]
    fn sample_item_bindings(&mut self, index: usize, own: Option<u64>, bindings: &Bindings, out: &mut Vec<SampleUse>) -> (r: Result<(), FrameRefusal>)
        requires
            old(self).wf(),
        ensures
            final(self).wf(),
            match sample_bindings(old(self)@, index, own, bindings@) {
                Err(refusal) => r == Err::<(), FrameRefusal>(refusal),
                Ok((state, uses)) => r is Ok && final(out)@ == old(out)@ + uses && final(self)@ == state,
            },
    {
        let ghost start = self@;
        let ghost before = out@;
        let n = bindings.len();
        let mut j: usize = 0;
        assert(bindings@.take(0) =~= Seq::<BindingRef>::empty());
        assert(out@ =~= before + Seq::<SampleUse>::empty());
        while j < n
            invariant
                self.wf(),
                n == bindings@.len(),
                j <= n,
                exists|uses: Seq<SampleUse>|
                    sample_bindings(start, index, own, bindings@.take(j as int))
                        == Ok::<(WalkState, Seq<SampleUse>), FrameRefusal>((self@, uses)) && out@ == before + uses,
            decreases n - j,
        {
            let ghost uses = choose|uses: Seq<SampleUse>|
                sample_bindings(start, index, own, bindings@.take(j as int))
                    == Ok::<(WalkState, Seq<SampleUse>), FrameRefusal>((self@, uses)) && out@ == before + uses;
            assert(bindings@.take(j as int + 1).drop_last() =~= bindings@.take(j as int));
            assert(bindings@.take(j as int + 1).last() == bindings@[j as int]);
            let ghost at = self@;
            let step = self.sample_one(index, own, bindings.get(j));
            match step {
                Err(refusal) => {
                    assert(sample_step(at, index, own, bindings@[j as int]) == Err::<(WalkState, Seq<SampleUse>), FrameRefusal>(refusal));
                    assert(sample_bindings(start, index, own, bindings@.take(j as int + 1)) == Err::<(WalkState, Seq<SampleUse>), FrameRefusal>(refusal));
                    proof { lemma_sample_bindings_stop(start, index, own, bindings@, j as int + 1); }
                    return Err(refusal);
                },
                Ok(found) => {
                    match found {
                        Some(u) => {
                            out.push(u);
                            assert(out@ =~= before + (uses + seq![u]));
                        },
                        None => {
                            assert(out@ =~= before + (uses + Seq::<SampleUse>::empty()));
                        },
                    }
                },
            }
            j = j + 1;
        }
        assert(bindings@.take(n as int) =~= bindings@);
        Ok(())
    }

    /// Advance the walk over `pass`'s sampled render images, returning
    /// the transitions the first sampling of each forces, in first-use
    /// order — or the sampling rule it breaks.
    #[verifier::loop_isolation(false)]
    fn try_sampling(&mut self, index: usize, pass: &Pass) -> (r: Result<Vec<SampleUse>, FrameRefusal>)
        requires
            old(self).wf(),
        ensures
            final(self).wf(),
            match sample_items(old(self)@, index, own_target(*pass), pass.items@) {
                Err(refusal) => r == Err::<Vec<SampleUse>, FrameRefusal>(refusal),
                Ok((state, uses)) => r matches Ok(v) && v@ == uses && final(self)@ == state,
            },
    {
        let own = match pass.target {
            PassTarget::Image(image, _) => Some(image.key),
            PassTarget::Surface => None,
        };
        let ghost start = self@;
        let items = pass.items;
        let mut out: Vec<SampleUse> = Vec::new();
        let mut i: usize = 0;
        assert(items@.take(0) =~= Seq::<Item>::empty());
        while i < items.len()
            invariant
                self.wf(),
                items@ == pass.items@,
                own == own_target(*pass),
                i <= items@.len(),
                sample_items(start, index, own, items@.take(i as int)) == Ok::<(WalkState, Seq<SampleUse>), FrameRefusal>((self@, out@)),
            decreases items@.len() - i,
        {
            assert(items@.take(i as int + 1).drop_last() =~= items@.take(i as int));
            assert(items@.take(i as int + 1).last() == items@[i as int]);
            match items[i].bindings {
                Some(bindings) => {
                    assert(item_bindings(items@[i as int]) == bindings@);
                    let ghost at = self@;
                    match self.sample_item_bindings(index, own, &bindings, &mut out) {
                        Err(refusal) => {
                            assert(sample_bindings(at, index, own, bindings@) == Err::<(WalkState, Seq<SampleUse>), FrameRefusal>(refusal));
                            assert(sample_items(start, index, own, items@.take(i as int + 1)) == Err::<(WalkState, Seq<SampleUse>), FrameRefusal>(refusal));
                            proof { lemma_sample_items_stop(start, index, own, items@, i as int + 1); }
                            return Err(refusal);
                        },
                        Ok(()) => {},
                    }
                },
                None => {
                    assert(item_bindings(items@[i as int]) =~= Seq::<BindingRef>::empty());
                    assert(out@ =~= out@ + Seq::<SampleUse>::empty());
                },
            }
            i = i + 1;
        }
        assert(items@.take(items@.len() as int) =~= items@);
        Ok(out)
    }

    /// Advance the walk over the target of `pass`, a pass of an accepted
    /// frame in walk order, returning the use pairs its attachments
    /// transition through. Each pair is a pass boundary of the barrier
    /// table.
    pub fn advance_target(&mut self, index: usize, pass: &Pass) -> (uses: TargetUses)
        requires
            old(self).wf(),
            shape_refusal(index, *pass) is None,
            target_step(old(self)@, index, *pass) is Ok,
        ensures
            final(self).wf(),
            (final(self)@, uses) == target_step(old(self)@, index, *pass)->Ok_0,
            uses_are_boundaries(uses),
    {
        proof { lemma_target_uses_are_boundaries(self@, index, *pass); }
        match self.try_target(index, pass) {
            Ok(uses) => uses,
            Err(_) => {
                proof { assert(false); }
                TargetUses { color: None, depth: None }
            },
        }
    }

    /// Advance the walk over the sampled render images of `pass`, a pass
    /// of an accepted frame in walk order, returning the transitions the
    /// first sampling of each forces, in first-use order. Each is a pass
    /// boundary of the barrier table.
    pub fn advance_sampling(&mut self, index: usize, pass: &Pass) -> (uses: Vec<SampleUse>)
        requires
            old(self).wf(),
            sample_items(old(self)@, index, own_target(*pass), pass.items@) is Ok,
        ensures
            final(self).wf(),
            (final(self)@, uses@) == sample_items(old(self)@, index, own_target(*pass), pass.items@)->Ok_0,
            samples_are_boundaries(uses@),
    {
        proof { lemma_sample_items_are_boundaries(self@, index, own_target(*pass), pass.items@); }
        match self.try_sampling(index, pass) {
            Ok(uses) => uses,
            Err(_) => {
                proof { assert(false); }
                Vec::new()
            },
        }
    }
}

/// The frame-shape contract, checked identically by every target before
/// any GPU call: the first rule `desc` breaks, or nothing.
#[verifier::loop_isolation(false)]
pub fn check_frame_contract(desc: &RenderDesc) -> (r: Result<(), FrameRefusal>)
    ensures
        r == frame_outcome(desc.passes@),
{
    let passes = desc.passes;
    if passes.len() == 0 {
        return Err(FrameRefusal::NoPasses);
    }
    let mut walk = FrameWalk::new();
    let mut i: usize = 0;
    while i < passes.len()
        invariant
            passes@ == desc.passes@,
            i <= passes@.len(),
            walk.wf(),
            walk_passes(passes@.take(i as int)) == Ok::<WalkState, FrameRefusal>(walk@),
        decreases passes@.len() - i,
    {
        let pass = &passes[i];
        let ghost state = walk@;
        assert(passes@.take(i as int + 1).drop_last() =~= passes@.take(i as int));
        assert(passes@.take(i as int + 1).last() == *pass);
        if let Some(refusal) = check_pass_shape(i, pass) {
            proof { lemma_walk_stops(passes@, i as int + 1); }
            return Err(refusal);
        }
        match walk.try_target(i, pass) {
            Err(refusal) => {
                proof { lemma_walk_stops(passes@, i as int + 1); }
                return Err(refusal);
            },
            Ok(_) => {},
        }
        let items = pass.items;
        let mut k: usize = 0;
        while k < items.len()
            invariant
                items@ == pass.items@,
                k <= items@.len(),
                items_refusal(i, *pass, items@.take(k as int)) is None,
            decreases items@.len() - k,
        {
            assert(items@.take(k as int + 1).drop_last() =~= items@.take(k as int));
            if let Some(refusal) = check_item(i, pass, &items[k]) {
                proof {
                    lemma_items_stop(i, *pass, items@, k as int + 1);
                    lemma_walk_stops(passes@, i as int + 1);
                }
                return Err(refusal);
            }
            k = k + 1;
        }
        assert(items@.take(items@.len() as int) =~= items@);
        match walk.try_sampling(i, pass) {
            Err(refusal) => {
                proof { lemma_walk_stops(passes@, i as int + 1); }
                return Err(refusal);
            },
            Ok(_) => {},
        }
        i = i + 1;
    }
    assert(passes@.take(passes@.len() as int) =~= passes@);
    if !walk.surface_used() {
        return Err(FrameRefusal::NoSurfacePass);
    }
    check_retention_bound(desc)
}

} // verus!
