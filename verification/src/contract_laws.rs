//! What the frame contract promises of every frame it accepts, proved
//! over its specification: the shapes and identities the record paths
//! rely on without checking again.

use vstd::prelude::*;
use crate::frame::{
    claim_of, find_key, frame_outcome, initial_retention, item_bindings, item_refusal, items_refusal,
    note_bindings, note_frame_data, note_item, note_items, note_key, note_pass, note_passes,
    own_target, pass_step, sample_bindings, sample_items, sample_step, SampleUse, shape_refusal, target_step,
    walk_passes, BindingRef, FrameDataRef, ImageEntry, Item, LoadOp, Pass, PassTarget, RetentionState,
    WalkState, MAX_FRAME_RENDER_IMAGES, MAX_RETAINED_RESOURCES,
};

use crate::frame::{initial_walk, ClearValue, TargetUses};
use crate::pipeline::TargetFormat;
use crate::render_image::RenderImageKind;
use crate::transition::ImageUse;
use crate::debug::{counters_replay, is_error, is_warning, RETAINED_MESSAGES};
use crate::swapchain::{
    no_pending, ring_abort, ring_chain_built, ring_chain_guard, ring_extent, ring_fence_cleared, ring_must_wait,
    ring_render_guard, ring_resize, ring_submitted, ring_teardown, ring_wf, zero_extent, ChainPlan, FrameRing,
    PresentOutcome, RingView,
};

verus! {

// ---- the walk over a prefix ------------------------------------------------

/// The walk over the first `k + 1` passes is the walk over the first `k`
/// followed by pass `k`.
proof fn lemma_walk_unfold(passes: Seq<Pass>, k: int)
    requires
        0 <= k < passes.len(),
    ensures
        walk_passes(passes.take(k + 1)) == (match walk_passes(passes.take(k)) {
            Err(refusal) => Err(refusal),
            Ok(state) => pass_step(state, k as usize, passes[k]),
        }),
{
    assert(passes.take(k + 1).drop_last() =~= passes.take(k));
    assert(passes.take(k + 1).last() == passes[k]);
}

/// A frame the walk accepts is accepted on every prefix.
proof fn lemma_walk_prefix_ok(passes: Seq<Pass>, k: int)
    requires
        0 <= k <= passes.len(),
        walk_passes(passes) is Ok,
    ensures
        walk_passes(passes.take(k)) is Ok,
    decreases passes.len() - k,
{
    if k == passes.len() {
        assert(passes.take(k) =~= passes);
    } else {
        lemma_walk_prefix_ok(passes, k + 1);
        lemma_walk_unfold(passes, k);
    }
}

/// The state the walk reaches just before pass `k`, in a frame it
/// accepts.
pub open spec fn state_before(passes: Seq<Pass>, k: int) -> WalkState {
    walk_passes(passes.take(k))->Ok_0
}

// ---- sampling leaves the target flags and the targeted keys alone ----------

/// `after` keeps `before`'s flags and its targeted keys, slot by slot.
spec fn keeps_targets(before: WalkState, after: WalkState) -> bool {
    &&& after.surface_used == before.surface_used
    &&& after.depth_used == before.depth_used
    &&& after.images.len() == before.images.len()
    &&& forall|s: int| 0 <= s < before.images.len() ==> #[trigger] after.images[s].key == before.images[s].key
        && after.images[s].discarded == before.images[s].discarded
}

proof fn lemma_sample_step_keeps(state: WalkState, index: usize, own: Option<u64>, binding: BindingRef)
    ensures
        sample_step(state, index, own, binding) matches Ok((after, _)) ==> keeps_targets(state, after),
{
}

proof fn lemma_sample_bindings_keeps(state: WalkState, index: usize, own: Option<u64>, bindings: Seq<BindingRef>)
    ensures
        sample_bindings(state, index, own, bindings) matches Ok((after, _)) ==> keeps_targets(state, after),
    decreases bindings.len(),
{
    if bindings.len() > 0 {
        lemma_sample_bindings_keeps(state, index, own, bindings.drop_last());
        if let Ok((mid, _)) = sample_bindings(state, index, own, bindings.drop_last()) {
            lemma_sample_step_keeps(mid, index, own, bindings.last());
        }
    }
}

proof fn lemma_sample_items_keeps(state: WalkState, index: usize, own: Option<u64>, items: Seq<Item>)
    ensures
        sample_items(state, index, own, items) matches Ok((after, _)) ==> keeps_targets(state, after),
    decreases items.len(),
{
    if items.len() > 0 {
        lemma_sample_items_keeps(state, index, own, items.drop_last());
        if let Ok((mid, _)) = sample_items(state, index, own, items.drop_last()) {
            lemma_sample_bindings_keeps(mid, index, own, item_bindings(items.last()));
        }
    }
}

// ---- the target flags record exactly which passes ran ----------------------

/// Whether a pass renders into the surface.
pub open spec fn is_surface_pass(pass: Pass) -> bool {
    pass.target is Surface
}

/// Whether a pass carries the target's own depth image.
pub open spec fn uses_target_depth(pass: Pass) -> bool {
    pass.target is Surface && pass.depth is Some
}

/// After an accepted prefix of `k` passes, the surface has been used
/// exactly when one of them is a surface pass, and the target's depth
/// exactly when one of them carries it.
proof fn lemma_walk_flags(passes: Seq<Pass>, k: int)
    requires
        0 <= k <= passes.len(),
        walk_passes(passes.take(k)) is Ok,
    ensures
        state_before(passes, k).surface_used <==> exists|i: int| 0 <= i < k && is_surface_pass(#[trigger] passes[i]),
        state_before(passes, k).depth_used <==> exists|i: int| 0 <= i < k && uses_target_depth(#[trigger] passes[i]),
    decreases k,
{
    if k == 0 {
        assert(passes.take(0) =~= Seq::<Pass>::empty());
    } else {
        lemma_walk_unfold(passes, k - 1);
        lemma_walk_flags(passes, k - 1);
        let before = state_before(passes, k - 1);
        let pass = passes[k - 1];
        let (mid, _) = target_step(before, (k - 1) as usize, pass)->Ok_0;
        lemma_sample_items_keeps(mid, (k - 1) as usize, own_target(pass), pass.items@);
        if is_surface_pass(pass) {
            assert(is_surface_pass(passes[k - 1]));
        }
        if uses_target_depth(pass) {
            assert(uses_target_depth(passes[k - 1]));
        }
        assert forall|i: int| 0 <= i < k - 1 && is_surface_pass(#[trigger] passes[i]) implies before.surface_used by {}
        assert forall|i: int| 0 <= i < k - 1 && uses_target_depth(#[trigger] passes[i]) implies before.depth_used by {}
    }
}

// ---- the laws ----------------------------------------------------------------

/// An accepted frame has at least one pass, and at least one of its
/// passes renders into the surface.
pub proof fn lemma_accepted_frame_presents(passes: Seq<Pass>)
    requires
        frame_outcome(passes) is Ok,
    ensures
        passes.len() > 0,
        exists|i: int| 0 <= i < passes.len() && is_surface_pass(#[trigger] passes[i]),
{
    assert(passes.take(passes.len() as int) =~= passes);
    lemma_walk_flags(passes, passes.len() as int);
}

/// In an accepted frame, the first pass to render into the surface does
/// not load it: the surface's contents at acquire are undefined.
pub proof fn lemma_first_surface_use_does_not_load(passes: Seq<Pass>, i: int)
    requires
        frame_outcome(passes) is Ok,
        0 <= i < passes.len(),
        is_surface_pass(passes[i]),
        forall|j: int| 0 <= j < i ==> !is_surface_pass(#[trigger] passes[j]),
    ensures
        !(passes[i].color@[0].load is Load),
{
    lemma_walk_prefix_ok(passes, i + 1);
    lemma_walk_prefix_ok(passes, i);
    lemma_walk_unfold(passes, i);
    lemma_walk_flags(passes, i);
}

/// In an accepted frame, the first pass to carry the target's depth
/// image does not load it: a depth image starts each frame undefined.
pub proof fn lemma_first_depth_use_does_not_load(passes: Seq<Pass>, i: int)
    requires
        frame_outcome(passes) is Ok,
        0 <= i < passes.len(),
        uses_target_depth(passes[i]),
        forall|j: int| 0 <= j < i ==> !uses_target_depth(#[trigger] passes[j]),
    ensures
        !(passes[i].depth->0.load is Load),
{
    lemma_walk_prefix_ok(passes, i + 1);
    lemma_walk_prefix_ok(passes, i);
    lemma_walk_unfold(passes, i);
    lemma_walk_flags(passes, i);
}

proof fn lemma_items_refusal_none(index: usize, pass: Pass, items: Seq<Item>, j: int)
    requires
        items_refusal(index, pass, items) is None,
        0 <= j < items.len(),
    ensures
        item_refusal(index, pass, items[j]) is None,
    decreases items.len(),
{
    if j < items.len() - 1 {
        lemma_items_refusal_none(index, pass, items.drop_last(), j);
    }
}

/// In an accepted frame, every pass has the shape its target asks for,
/// and every item agrees with its pipeline and its pass: format, depth
/// state, geometry, push data and bindings.
pub proof fn lemma_accepted_items_agree(passes: Seq<Pass>, i: int, j: int)
    requires
        frame_outcome(passes) is Ok,
        0 <= i < passes.len(),
        0 <= j < passes[i].items@.len(),
    ensures
        shape_refusal(i as usize, passes[i]) is None,
        item_refusal(i as usize, passes[i], passes[i].items@[j]) is None,
{
    lemma_walk_prefix_ok(passes, i + 1);
    lemma_walk_prefix_ok(passes, i);
    lemma_walk_unfold(passes, i);
    lemma_items_refusal_none(i as usize, passes[i], passes[i].items@, j);
}

/// In an accepted frame, an item carries push data exactly when its
/// pipeline declares a push-constant range, and then exactly as many
/// bytes as the range: a short block leaves bytes undefined, a surplus
/// one writes past the range.
pub proof fn lemma_accepted_push_data_is_exact(passes: Seq<Pass>, i: int, j: int)
    requires
        frame_outcome(passes) is Ok,
        0 <= i < passes.len(),
        0 <= j < passes[i].items@.len(),
    ensures
        (passes[i].items@[j].push_data is Some) == (passes[i].items@[j].pipeline.push_constant_size > 0),
        passes[i].items@[j].push_data matches Some(bytes) ==> bytes@.len()
            == passes[i].items@[j].pipeline.push_constant_size,
{
    lemma_accepted_items_agree(passes, i, j);
}

/// In an accepted frame, every item matches its pipeline and its pass:
/// a depth-only pipeline draws only into a depth image, an image pass's
/// pipeline renders the image's format, the pipeline carries depth state
/// exactly when the pass carries a depth attachment, a mesh is given
/// exactly to a pipeline that reads vertices and has the pipeline's
/// stride, and bindings are given exactly to a pipeline that declares
/// sampled slots, one per slot.
pub proof fn lemma_accepted_items_match_pipelines(passes: Seq<Pass>, i: int, j: int)
    requires
        frame_outcome(passes) is Ok,
        0 <= i < passes.len(),
        0 <= j < passes[i].items@.len(),
    ensures
        ({
            let pass = passes[i];
            let item = pass.items@[j];
            let pipeline = item.pipeline;
            &&& match pass.target {
                PassTarget::Surface => pipeline.format != TargetFormat::DepthOnly,
                PassTarget::Image(image, _) => pipeline.format == (if image.kind == RenderImageKind::Depth {
                    TargetFormat::DepthOnly
                } else {
                    TargetFormat::Rgba8Unorm
                }),
            }
            &&& pipeline.depth == (match pass.target {
                PassTarget::Surface => pass.depth is Some,
                PassTarget::Image(image, _) => image.kind == RenderImageKind::Depth,
            })
            &&& pipeline.vertex_input == (item.mesh is Some)
            &&& item.mesh matches Some(mesh) ==> mesh.vertex_stride == pipeline.vertex_stride
            &&& (item.bindings is Some) == (pipeline.sampled_bindings > 0)
            &&& item.bindings matches Some(bindings) ==> bindings@.len() == pipeline.sampled_bindings
        }),
{
    lemma_accepted_items_agree(passes, i, j);
}

/// In an accepted frame, every pass has the shape its target asks for: a
/// surface pass has exactly one colour attachment, cleared (if at all)
/// to a colour, and a depth attachment cleared (if at all) to a depth in
/// `[0, 1]`; an image pass has no colour or depth attachments of its own.
pub proof fn lemma_accepted_passes_are_shaped(passes: Seq<Pass>, i: int)
    requires
        frame_outcome(passes) is Ok,
        0 <= i < passes.len(),
    ensures
        passes[i].target is Surface ==> {
            &&& passes[i].color@.len() == 1
            &&& passes[i].color@[0].load matches LoadOp::Clear(value) ==> value is Color
            &&& match passes[i].depth {
                Some(depth) => match depth.load {
                    LoadOp::Clear(ClearValue::Depth(bits)) => bits <= 0x3F80_0000 || bits == 0x8000_0000,
                    LoadOp::Clear(_) => false,
                    LoadOp::Load => true,
                },
                None => true,
            }
        },
        passes[i].target is Image ==> passes[i].color@.len() == 0 && passes[i].depth is None,
{
    lemma_walk_prefix_ok(passes, i + 1);
    assert(walk_passes(passes) is Ok);
    lemma_walk_prefix_ok(passes, i + 1);
    lemma_walk_unfold(passes, i);
}

// ---- sampling follows rendering ------------------------------------------------

/// Whether pass `p` renders into the image `key`.
pub open spec fn targets(pass: Pass, key: u64) -> bool {
    own_target(pass) == Some(key)
}

/// Whether `key` is among a walk state's targeted images.
spec fn holds_key(images: Seq<ImageEntry>, key: u64) -> bool {
    exists|s: int| 0 <= s < images.len() && #[trigger] images[s].key == key
}

proof fn lemma_keeps_holds(before: WalkState, after: WalkState, key: u64)
    requires
        keeps_targets(before, after),
        holds_key(after.images, key),
    ensures
        holds_key(before.images, key),
{
    let s = choose|s: int| 0 <= s < after.images.len() && #[trigger] after.images[s].key == key;
    assert(before.images[s].key == key);
}

proof fn lemma_find_key_holds(images: Seq<ImageEntry>, key: u64)
    requires
        find_key(images, key) is Some,
    ensures
        holds_key(images, key),
{
    let s = choose|i: int| 0 <= i < images.len() && images[i].key == key;
    assert(images[s].key == key);
}

/// Every image a run of bindings samples is not the pass's own target,
/// and is among the images targeted before the run.
proof fn lemma_sampled_bindings_targeted(state: WalkState, index: usize, own: Option<u64>, bindings: Seq<BindingRef>, m: int)
    requires
        sample_bindings(state, index, own, bindings) is Ok,
        0 <= m < bindings.len(),
        bindings[m].sampled_image is Some,
    ensures
        own != bindings[m].sampled_image,
        holds_key(state.images, bindings[m].sampled_image->0),
    decreases bindings.len(),
{
    let key = bindings[m].sampled_image->0;
    let mid = sample_bindings(state, index, own, bindings.drop_last())->Ok_0.0;
    lemma_sample_bindings_keeps(state, index, own, bindings.drop_last());
    if m == bindings.len() - 1 {
        lemma_find_key_holds(mid.images, key);
        lemma_keeps_holds(state, mid, key);
    } else {
        lemma_sampled_bindings_targeted(state, index, own, bindings.drop_last(), m);
    }
}

/// Every image a run of items samples is not the pass's own target, and
/// is among the images targeted before the run.
proof fn lemma_sampled_items_targeted(state: WalkState, index: usize, own: Option<u64>, items: Seq<Item>, j: int, m: int)
    requires
        sample_items(state, index, own, items) is Ok,
        0 <= j < items.len(),
        0 <= m < item_bindings(items[j]).len(),
        item_bindings(items[j])[m].sampled_image is Some,
    ensures
        own != item_bindings(items[j])[m].sampled_image,
        holds_key(state.images, item_bindings(items[j])[m].sampled_image->0),
    decreases items.len(),
{
    let key = item_bindings(items[j])[m].sampled_image->0;
    let mid = sample_items(state, index, own, items.drop_last())->Ok_0.0;
    lemma_sample_items_keeps(state, index, own, items.drop_last());
    if j == items.len() - 1 {
        lemma_sampled_bindings_targeted(mid, index, own, item_bindings(items.last()), m);
        lemma_keeps_holds(state, mid, key);
    } else {
        lemma_sampled_items_targeted(state, index, own, items.drop_last(), j, m);
    }
}

/// After an accepted prefix of `k` passes, every targeted image was
/// targeted by one of them.
proof fn lemma_walk_keys_targeted(passes: Seq<Pass>, k: int)
    requires
        0 <= k <= passes.len(),
        walk_passes(passes.take(k)) is Ok,
    ensures
        forall|key: u64| holds_key(state_before(passes, k).images, key) ==> exists|p: int| 0 <= p < k && targets(
            #[trigger] passes[p],
            key,
        ),
    decreases k,
{
    if k == 0 {
        assert(passes.take(0) =~= Seq::<Pass>::empty());
    } else {
        lemma_walk_unfold(passes, k - 1);
        lemma_walk_keys_targeted(passes, k - 1);
        let before = state_before(passes, k - 1);
        let pass = passes[k - 1];
        let (mid, _) = target_step(before, (k - 1) as usize, pass)->Ok_0;
        lemma_sample_items_keeps(mid, (k - 1) as usize, own_target(pass), pass.items@);
        let after = state_before(passes, k);
        assert forall|key: u64| holds_key(after.images, key) implies exists|p: int| 0 <= p < k && targets(
            #[trigger] passes[p],
            key,
        ) by {
            lemma_keeps_holds(mid, after, key);
            let s = choose|s: int| 0 <= s < mid.images.len() && #[trigger] mid.images[s].key == key;
            if s < before.images.len() && before.images[s].key == key {
                assert(holds_key(before.images, key));
                let p = choose|p: int| 0 <= p < k - 1 && targets(#[trigger] passes[p], key);
                assert(targets(passes[p], key));
            } else {
                assert(targets(passes[k - 1], key));
            }
        }
    }
}

/// In an accepted frame, a pass samples only images an earlier pass of
/// the frame rendered — never its own target, never one no pass wrote.
pub proof fn lemma_sampling_follows_rendering(passes: Seq<Pass>, i: int, j: int, m: int)
    requires
        frame_outcome(passes) is Ok,
        0 <= i < passes.len(),
        0 <= j < passes[i].items@.len(),
        0 <= m < item_bindings(passes[i].items@[j]).len(),
        item_bindings(passes[i].items@[j])[m].sampled_image is Some,
    ensures
        !targets(passes[i], item_bindings(passes[i].items@[j])[m].sampled_image->0),
        exists|p: int| 0 <= p < i && targets(#[trigger] passes[p], item_bindings(passes[i].items@[j])[m].sampled_image->0),
{
    let key = item_bindings(passes[i].items@[j])[m].sampled_image->0;
    let pass = passes[i];
    lemma_walk_prefix_ok(passes, i + 1);
    lemma_walk_prefix_ok(passes, i);
    lemma_walk_unfold(passes, i);
    let before = state_before(passes, i);
    let (mid, _) = target_step(before, i as usize, pass)->Ok_0;
    lemma_sampled_items_targeted(mid, i as usize, own_target(pass), pass.items@, j, m);
    let s = choose|s: int| 0 <= s < mid.images.len() && #[trigger] mid.images[s].key == key;
    if s < before.images.len() && before.images[s].key == key {
        assert(holds_key(before.images, key));
    } else {
        assert(targets(pass, key));
    }
    lemma_walk_keys_targeted(passes, i);
}

// ---- no image is rendered again once read ---------------------------------------

/// The targeted images' keys are distinct.
spec fn unique_keys(images: Seq<ImageEntry>) -> bool {
    forall|a: int, b: int| 0 <= a < images.len() && 0 <= b < images.len() && a != b ==> images[a].key != images[b].key
}

/// Whether `key` is targeted and has been sampled.
pub open spec fn sampled_key(images: Seq<ImageEntry>, key: u64) -> bool {
    exists|s: int| 0 <= s < images.len() && #[trigger] images[s].key == key && images[s].sampled
}

/// Every key sampled in `before` is sampled in `after`.
spec fn sampling_kept(before: Seq<ImageEntry>, after: Seq<ImageEntry>) -> bool {
    forall|key: u64| sampled_key(before, key) ==> #[trigger] sampled_key(after, key)
}

proof fn lemma_find_unique(images: Seq<ImageEntry>, key: u64, slot: int)
    requires
        unique_keys(images),
        0 <= slot < images.len(),
        images[slot].key == key,
    ensures
        find_key(images, key) == Some(slot),
{
    let chosen = choose|i: int| 0 <= i < images.len() && images[i].key == key;
    assert(0 <= chosen < images.len() && images[chosen].key == key);
}

proof fn lemma_sample_step_marks(state: WalkState, index: usize, own: Option<u64>, binding: BindingRef)
    requires
        sample_step(state, index, own, binding) is Ok,
    ensures
        sampling_kept(state.images, sample_step(state, index, own, binding)->Ok_0.0.images),
        binding.sampled_image matches Some(key) ==> sampled_key(sample_step(state, index, own, binding)->Ok_0.0.images, key),
{
    let after = sample_step(state, index, own, binding)->Ok_0.0;
    assert forall|key: u64| sampled_key(state.images, key) implies #[trigger] sampled_key(after.images, key) by {
        let s = choose|s: int| 0 <= s < state.images.len() && #[trigger] state.images[s].key == key && state.images[s].sampled;
        assert(after.images[s].key == key && after.images[s].sampled);
    }
    if let Some(key) = binding.sampled_image {
        let slot = find_key(state.images, key)->0;
        let chosen = choose|i: int| 0 <= i < state.images.len() && state.images[i].key == key;
        assert(slot == chosen);
        assert(after.images[slot].key == key && after.images[slot].sampled);
    }
}

proof fn lemma_sample_bindings_marks(state: WalkState, index: usize, own: Option<u64>, bindings: Seq<BindingRef>)
    requires
        sample_bindings(state, index, own, bindings) is Ok,
    ensures
        sampling_kept(state.images, sample_bindings(state, index, own, bindings)->Ok_0.0.images),
        forall|m: int| 0 <= m < bindings.len() && #[trigger] bindings[m].sampled_image is Some ==> sampled_key(
            sample_bindings(state, index, own, bindings)->Ok_0.0.images,
            bindings[m].sampled_image->0,
        ),
    decreases bindings.len(),
{
    if bindings.len() > 0 {
        let mid = sample_bindings(state, index, own, bindings.drop_last())->Ok_0.0;
        let after = sample_bindings(state, index, own, bindings)->Ok_0.0;
        lemma_sample_bindings_marks(state, index, own, bindings.drop_last());
        lemma_sample_step_marks(mid, index, own, bindings.last());
        assert forall|m: int| 0 <= m < bindings.len() && #[trigger] bindings[m].sampled_image is Some implies sampled_key(
            after.images,
            bindings[m].sampled_image->0,
        ) by {
            if m < bindings.len() - 1 {
                assert(bindings.drop_last()[m] == bindings[m]);
                assert(sampled_key(mid.images, bindings[m].sampled_image->0));
            }
        }
    }
}

proof fn lemma_sample_items_marks(state: WalkState, index: usize, own: Option<u64>, items: Seq<Item>)
    requires
        sample_items(state, index, own, items) is Ok,
    ensures
        sampling_kept(state.images, sample_items(state, index, own, items)->Ok_0.0.images),
        forall|j: int, m: int| #![trigger item_bindings(items[j])[m]] 0 <= j < items.len() && 0 <= m < item_bindings(items[j]).len()
            && item_bindings(items[j])[m].sampled_image is Some ==> sampled_key(
            sample_items(state, index, own, items)->Ok_0.0.images,
            item_bindings(items[j])[m].sampled_image->0,
        ),
    decreases items.len(),
{
    if items.len() > 0 {
        let mid = sample_items(state, index, own, items.drop_last())->Ok_0.0;
        let after = sample_items(state, index, own, items)->Ok_0.0;
        lemma_sample_items_marks(state, index, own, items.drop_last());
        lemma_sample_bindings_marks(mid, index, own, item_bindings(items.last()));
        assert forall|j: int, m: int| #![trigger item_bindings(items[j])[m]] 0 <= j < items.len() && 0 <= m < item_bindings(items[j]).len()
            && item_bindings(items[j])[m].sampled_image is Some implies sampled_key(
            after.images,
            item_bindings(items[j])[m].sampled_image->0,
        ) by {
            if j < items.len() - 1 {
                assert(items.drop_last()[j] == items[j]);
                assert(sampled_key(mid.images, item_bindings(items[j])[m].sampled_image->0));
            } else {
                let b = item_bindings(items.last());
                assert(b[m].sampled_image is Some);
            }
        }
    }
}

proof fn lemma_target_step_keeps_sampling(state: WalkState, index: usize, pass: Pass)
    requires
        target_step(state, index, pass) is Ok,
    ensures
        sampling_kept(state.images, target_step(state, index, pass)->Ok_0.0.images),
{
    let mid = target_step(state, index, pass)->Ok_0.0;
    assert forall|key: u64| sampled_key(state.images, key) implies #[trigger] sampled_key(mid.images, key) by {
        let s = choose|s: int| 0 <= s < state.images.len() && #[trigger] state.images[s].key == key && state.images[s].sampled;
        assert(mid.images[s].key == key && mid.images[s].sampled);
    }
}

/// A target step keeps the targeted keys distinct.
proof fn lemma_target_step_unique(state: WalkState, index: usize, pass: Pass)
    requires
        target_step(state, index, pass) is Ok,
        unique_keys(state.images),
    ensures
        unique_keys(target_step(state, index, pass)->Ok_0.0.images),
{
    if let PassTarget::Image(image, _) = pass.target {
        if find_key(state.images, image.key) is None {
            assert forall|s: int| 0 <= s < state.images.len() implies state.images[s].key != image.key by {
                if state.images[s].key == image.key {
                    assert(exists|i: int| 0 <= i < state.images.len() && state.images[i].key == image.key);
                }
            }
        }
    }
}

/// One accepted pass keeps keys distinct and keeps what was sampled
/// sampled.
proof fn lemma_pass_keeps_sampling(state: WalkState, index: usize, pass: Pass)
    requires
        pass_step(state, index, pass) is Ok,
        unique_keys(state.images),
    ensures
        unique_keys(pass_step(state, index, pass)->Ok_0.images),
        sampling_kept(state.images, pass_step(state, index, pass)->Ok_0.images),
{
    let mid = target_step(state, index, pass)->Ok_0.0;
    let after = pass_step(state, index, pass)->Ok_0;
    lemma_target_step_keeps_sampling(state, index, pass);
    lemma_sample_items_keeps(mid, index, own_target(pass), pass.items@);
    lemma_sample_items_marks(mid, index, own_target(pass), pass.items@);
    lemma_target_step_unique(state, index, pass);
    assert forall|a: int, b: int| 0 <= a < after.images.len() && 0 <= b < after.images.len() && a != b implies after.images[a].key
        != after.images[b].key by {
        assert(after.images[a].key == mid.images[a].key);
        assert(after.images[b].key == mid.images[b].key);
    }
}

/// From one accepted prefix to a longer one, keys stay distinct and
/// what was sampled stays sampled.
proof fn lemma_walk_keeps_sampling(passes: Seq<Pass>, a: int, b: int)
    requires
        0 <= a <= b <= passes.len(),
        walk_passes(passes.take(b)) is Ok,
        unique_keys(state_before(passes, a).images),
    ensures
        walk_passes(passes.take(a)) is Ok,
        unique_keys(state_before(passes, b).images),
        sampling_kept(state_before(passes, a).images, state_before(passes, b).images),
    decreases b - a,
{
    if a == b {
        lemma_walk_prefix_ok(passes.take(b), a);
        assert(passes.take(b).take(a) =~= passes.take(a));
    } else {
        lemma_walk_unfold(passes, b - 1);
        lemma_walk_keeps_sampling(passes, a, b - 1);
        lemma_pass_keeps_sampling(state_before(passes, b - 1), (b - 1) as usize, passes[b - 1]);
    }
}

/// Every accepted prefix leaves the targeted keys distinct.
proof fn lemma_walk_unique(passes: Seq<Pass>, k: int)
    requires
        0 <= k <= passes.len(),
        walk_passes(passes.take(k)) is Ok,
    ensures
        unique_keys(state_before(passes, k).images),
{
    assert(passes.take(0) =~= Seq::<Pass>::empty());
    lemma_walk_keeps_sampling(passes, 0, k);
}

/// In an accepted frame, once a pass samples an image, no later pass
/// renders into it: the walk is one-way, written before it is read and
/// never re-targeted after.
pub proof fn lemma_no_render_after_sampling(passes: Seq<Pass>, i: int, j: int, m: int, k: int)
    requires
        frame_outcome(passes) is Ok,
        0 <= i < k < passes.len(),
        0 <= j < passes[i].items@.len(),
        0 <= m < item_bindings(passes[i].items@[j]).len(),
        item_bindings(passes[i].items@[j])[m].sampled_image is Some,
    ensures
        !targets(passes[k], item_bindings(passes[i].items@[j])[m].sampled_image->0),
{
    let key = item_bindings(passes[i].items@[j])[m].sampled_image->0;
    let pass = passes[i];
    lemma_walk_prefix_ok(passes, k + 1);
    lemma_walk_prefix_ok(passes, k);
    lemma_walk_prefix_ok(passes, i + 1);
    lemma_walk_prefix_ok(passes, i);
    lemma_walk_unfold(passes, i);
    lemma_walk_unfold(passes, k);
    lemma_walk_unique(passes, i);
    let before = state_before(passes, i);
    let mid = target_step(before, i as usize, pass)->Ok_0.0;
    lemma_sample_items_marks(mid, i as usize, own_target(pass), pass.items@);
    assert(sampled_key(state_before(passes, i + 1).images, key));
    lemma_walk_unique(passes, i + 1);
    lemma_walk_keeps_sampling(passes, i + 1, k);
    let at = state_before(passes, k);
    assert(sampled_key(at.images, key));
    if targets(passes[k], key) {
        let s = choose|s: int| 0 <= s < at.images.len() && #[trigger] at.images[s].key == key && at.images[s].sampled;
        lemma_find_unique(at.images, key, s);
    }
}

// ---- a sampling transition is emitted once ---------------------------------------

/// Every use in `uses` names an image `after` has sampled and `before`
/// had not, and no two name the same image.
spec fn fresh_uses(before: Seq<ImageEntry>, after: Seq<ImageEntry>, uses: Seq<SampleUse>) -> bool {
    &&& forall|a: int| 0 <= a < uses.len() ==> sampled_key(after, #[trigger] uses[a].image) && !sampled_key(before, uses[a].image)
    &&& forall|a: int, b: int| 0 <= a < b < uses.len() ==> #[trigger] uses[a].image != #[trigger] uses[b].image
}

/// Every image `after` has sampled and `before` had not is named by a
/// use in `uses`.
spec fn complete_uses(before: Seq<ImageEntry>, after: Seq<ImageEntry>, uses: Seq<SampleUse>) -> bool {
    forall|key: u64| #[trigger] sampled_key(after, key) && !sampled_key(before, key) ==> exists|a: int| 0 <= a < uses.len() && uses[a].image == key
}

proof fn lemma_sample_step_complete(state: WalkState, index: usize, own: Option<u64>, binding: BindingRef)
    requires
        sample_step(state, index, own, binding) is Ok,
    ensures
        complete_uses(
            state.images,
            sample_step(state, index, own, binding)->Ok_0.0.images,
            sample_step(state, index, own, binding)->Ok_0.1,
        ),
{
    let (after, uses) = sample_step(state, index, own, binding)->Ok_0;
    assert forall|key: u64| #[trigger] sampled_key(after.images, key) && !sampled_key(state.images, key) implies exists|a: int|
        0 <= a < uses.len() && uses[a].image == key by {
        let s = choose|s: int| 0 <= s < after.images.len() && #[trigger] after.images[s].key == key && after.images[s].sampled;
        if uses.len() == 0 {
            assert(after.images[s] == state.images[s]);
            assert(sampled_key(state.images, key));
        } else {
            let k0 = binding.sampled_image->0;
            let slot = find_key(state.images, k0)->0;
            if s != slot {
                assert(after.images[s] == state.images[s]);
                assert(sampled_key(state.images, key));
            } else {
                assert(uses[0].image == key);
            }
        }
    }
}

proof fn lemma_sample_bindings_complete(state: WalkState, index: usize, own: Option<u64>, bindings: Seq<BindingRef>)
    requires
        sample_bindings(state, index, own, bindings) is Ok,
    ensures
        complete_uses(
            state.images,
            sample_bindings(state, index, own, bindings)->Ok_0.0.images,
            sample_bindings(state, index, own, bindings)->Ok_0.1,
        ),
    decreases bindings.len(),
{
    if bindings.len() == 0 {
    } else {
        let (mid, first) = sample_bindings(state, index, own, bindings.drop_last())->Ok_0;
        let (after, more) = sample_step(mid, index, own, bindings.last())->Ok_0;
        lemma_sample_bindings_complete(state, index, own, bindings.drop_last());
        lemma_sample_step_complete(mid, index, own, bindings.last());
        lemma_complete_join(state.images, mid.images, after.images, first, more);
    }
}

proof fn lemma_sample_items_complete(state: WalkState, index: usize, own: Option<u64>, items: Seq<Item>)
    requires
        sample_items(state, index, own, items) is Ok,
    ensures
        complete_uses(
            state.images,
            sample_items(state, index, own, items)->Ok_0.0.images,
            sample_items(state, index, own, items)->Ok_0.1,
        ),
    decreases items.len(),
{
    if items.len() == 0 {
    } else {
        let (mid, first) = sample_items(state, index, own, items.drop_last())->Ok_0;
        let (after, more) = sample_bindings(mid, index, own, item_bindings(items.last()))->Ok_0;
        lemma_sample_items_complete(state, index, own, items.drop_last());
        lemma_sample_bindings_complete(mid, index, own, item_bindings(items.last()));
        lemma_complete_join(state.images, mid.images, after.images, first, more);
    }
}

/// Two complete runs of uses, one after the other, are complete
/// together.
proof fn lemma_complete_join(
    before: Seq<ImageEntry>,
    mid: Seq<ImageEntry>,
    after: Seq<ImageEntry>,
    first: Seq<SampleUse>,
    more: Seq<SampleUse>,
)
    requires
        complete_uses(before, mid, first),
        complete_uses(mid, after, more),
    ensures
        complete_uses(before, after, first + more),
{
    let all = first + more;
    assert forall|key: u64| #[trigger] sampled_key(after, key) && !sampled_key(before, key) implies exists|a: int|
        0 <= a < all.len() && all[a].image == key by {
        if sampled_key(mid, key) {
            let a = choose|a: int| 0 <= a < first.len() && first[a].image == key;
            assert(all[a] == first[a]);
        } else {
            let b = choose|b: int| 0 <= b < more.len() && more[b].image == key;
            assert(all[first.len() + b] == more[b]);
        }
    }
}

/// A target step marks nothing sampled that was not.
proof fn lemma_target_step_samples_nothing(state: WalkState, index: usize, pass: Pass)
    requires
        target_step(state, index, pass) is Ok,
    ensures
        forall|key: u64| #[trigger] sampled_key(target_step(state, index, pass)->Ok_0.0.images, key) ==> sampled_key(
            state.images,
            key,
        ),
{
    let mid = target_step(state, index, pass)->Ok_0.0;
    assert forall|key: u64| #[trigger] sampled_key(mid.images, key) implies sampled_key(state.images, key) by {
        let s = choose|s: int| 0 <= s < mid.images.len() && #[trigger] mid.images[s].key == key && mid.images[s].sampled;
        if let PassTarget::Image(image, _) = pass.target {
            let known = find_key(state.images, image.key);
            let slot = match known {
                Some(i) => i,
                None => state.images.len() as int,
            };
            if s != slot {
                assert(s < state.images.len());
                assert(mid.images[s] == state.images[s]);
            }
        } else {
            assert(mid.images[s] == state.images[s]);
        }
    }
}

proof fn lemma_sample_step_fresh(state: WalkState, index: usize, own: Option<u64>, binding: BindingRef)
    requires
        sample_step(state, index, own, binding) is Ok,
        unique_keys(state.images),
    ensures
        unique_keys(sample_step(state, index, own, binding)->Ok_0.0.images),
        sampling_kept(state.images, sample_step(state, index, own, binding)->Ok_0.0.images),
        fresh_uses(
            state.images,
            sample_step(state, index, own, binding)->Ok_0.0.images,
            sample_step(state, index, own, binding)->Ok_0.1,
        ),
{
    let (after, uses) = sample_step(state, index, own, binding)->Ok_0;
    lemma_sample_step_keeps(state, index, own, binding);
    lemma_sample_step_marks(state, index, own, binding);
    assert forall|a: int, b: int| 0 <= a < after.images.len() && 0 <= b < after.images.len() && a != b implies after.images[a].key
        != after.images[b].key by {
        assert(after.images[a].key == state.images[a].key);
        assert(after.images[b].key == state.images[b].key);
    }
    if uses.len() > 0 {
        let key = binding.sampled_image->0;
        let slot = find_key(state.images, key)->0;
        let chosen = choose|i: int| 0 <= i < state.images.len() && state.images[i].key == key;
        assert(slot == chosen);
        assert(!state.images[slot].sampled);
        assert(uses[0].image == key);
        if sampled_key(state.images, key) {
            let s = choose|s: int| 0 <= s < state.images.len() && #[trigger] state.images[s].key == key && state.images[s].sampled;
            assert(s == slot);
        }
    }
}

proof fn lemma_sample_bindings_fresh(state: WalkState, index: usize, own: Option<u64>, bindings: Seq<BindingRef>)
    requires
        sample_bindings(state, index, own, bindings) is Ok,
        unique_keys(state.images),
    ensures
        unique_keys(sample_bindings(state, index, own, bindings)->Ok_0.0.images),
        sampling_kept(state.images, sample_bindings(state, index, own, bindings)->Ok_0.0.images),
        fresh_uses(
            state.images,
            sample_bindings(state, index, own, bindings)->Ok_0.0.images,
            sample_bindings(state, index, own, bindings)->Ok_0.1,
        ),
    decreases bindings.len(),
{
    if bindings.len() > 0 {
        let (mid, first) = sample_bindings(state, index, own, bindings.drop_last())->Ok_0;
        let (after, more) = sample_step(mid, index, own, bindings.last())->Ok_0;
        lemma_sample_bindings_fresh(state, index, own, bindings.drop_last());
        lemma_sample_step_fresh(mid, index, own, bindings.last());
        lemma_fresh_join(state.images, mid.images, after.images, first, more);
    }
}

proof fn lemma_sample_items_fresh(state: WalkState, index: usize, own: Option<u64>, items: Seq<Item>)
    requires
        sample_items(state, index, own, items) is Ok,
        unique_keys(state.images),
    ensures
        unique_keys(sample_items(state, index, own, items)->Ok_0.0.images),
        sampling_kept(state.images, sample_items(state, index, own, items)->Ok_0.0.images),
        fresh_uses(
            state.images,
            sample_items(state, index, own, items)->Ok_0.0.images,
            sample_items(state, index, own, items)->Ok_0.1,
        ),
    decreases items.len(),
{
    if items.len() > 0 {
        let (mid, first) = sample_items(state, index, own, items.drop_last())->Ok_0;
        let (after, more) = sample_bindings(mid, index, own, item_bindings(items.last()))->Ok_0;
        lemma_sample_items_fresh(state, index, own, items.drop_last());
        lemma_sample_bindings_fresh(mid, index, own, item_bindings(items.last()));
        lemma_fresh_join(state.images, mid.images, after.images, first, more);
    }
}

/// Two runs of fresh uses, one after the other, are fresh together.
proof fn lemma_fresh_join(
    before: Seq<ImageEntry>,
    mid: Seq<ImageEntry>,
    after: Seq<ImageEntry>,
    first: Seq<SampleUse>,
    more: Seq<SampleUse>,
)
    requires
        sampling_kept(before, mid),
        sampling_kept(mid, after),
        fresh_uses(before, mid, first),
        fresh_uses(mid, after, more),
    ensures
        sampling_kept(before, after),
        fresh_uses(before, after, first + more),
{
    let all = first + more;
    assert forall|key: u64| sampled_key(before, key) implies #[trigger] sampled_key(after, key) by {
        assert(sampled_key(mid, key));
    }
    assert forall|a: int| 0 <= a < all.len() implies sampled_key(after, #[trigger] all[a].image) && !sampled_key(
        before,
        all[a].image,
    ) by {
        if a < first.len() {
            assert(all[a] == first[a]);
            assert(sampled_key(mid, first[a].image));
        } else {
            assert(all[a] == more[a - first.len()]);
            assert(!sampled_key(mid, more[a - first.len()].image));
        }
    }
    assert forall|a: int, b: int| 0 <= a < b < all.len() implies #[trigger] all[a].image != #[trigger] all[b].image by {
        if b < first.len() {
            assert(all[a] == first[a] && all[b] == first[b]);
        } else if a >= first.len() {
            assert(all[a] == more[a - first.len()] && all[b] == more[b - first.len()]);
        } else {
            assert(all[a] == first[a] && all[b] == more[b - first.len()]);
            assert(sampled_key(mid, first[a].image));
            assert(!sampled_key(mid, more[b - first.len()].image));
        }
    }
}

/// The sampling transitions pass `k` of `passes` emits: what its
/// sampling walk answers, from the state its target step leaves.
pub open spec fn pass_sample_uses(passes: Seq<Pass>, k: int) -> Seq<SampleUse> {
    let pass = passes[k];
    let mid = target_step(state_before(passes, k), k as usize, pass)->Ok_0.0;
    sample_items(mid, k as usize, own_target(pass), pass.items@)->Ok_0.1
}

/// The state pass `k`'s sampling walk starts from and ends in, with its
/// uses fresh between the two.
proof fn lemma_pass_uses_fresh(passes: Seq<Pass>, k: int)
    requires
        walk_passes(passes) is Ok,
        0 <= k < passes.len(),
    ensures
        ({
            let pass = passes[k];
            let mid = target_step(state_before(passes, k), k as usize, pass)->Ok_0.0;
            &&& sampling_kept(state_before(passes, k).images, mid.images)
            &&& sample_items(mid, k as usize, own_target(pass), pass.items@) is Ok
            &&& sample_items(mid, k as usize, own_target(pass), pass.items@)->Ok_0.0 == state_before(passes, k + 1)
            &&& fresh_uses(mid.images, state_before(passes, k + 1).images, pass_sample_uses(passes, k))
        }),
{
    lemma_walk_prefix_ok(passes, k + 1);
    lemma_walk_prefix_ok(passes, k);
    lemma_walk_unfold(passes, k);
    lemma_walk_unique(passes, k);
    let pass = passes[k];
    let before = state_before(passes, k);
    lemma_target_step_keeps_sampling(before, k as usize, pass);
    lemma_target_step_unique(before, k as usize, pass);
    let mid = target_step(before, k as usize, pass)->Ok_0.0;
    lemma_sample_items_fresh(mid, k as usize, own_target(pass), pass.items@);
}

/// A use pass `i` emits names an image every later pass's sampling walk
/// starts with sampled, so no later pass emits it again.
proof fn lemma_later_pass_uses_differ(passes: Seq<Pass>, i: int, a: int, k: int, b: int)
    requires
        walk_passes(passes) is Ok,
        0 <= i < k < passes.len(),
        0 <= a < pass_sample_uses(passes, i).len(),
        0 <= b < pass_sample_uses(passes, k).len(),
    ensures
        pass_sample_uses(passes, i)[a].image != pass_sample_uses(passes, k)[b].image,
{
    lemma_pass_uses_fresh(passes, i);
    lemma_pass_uses_fresh(passes, k);
    let key = pass_sample_uses(passes, i)[a].image;
    assert(sampled_key(state_before(passes, i + 1).images, key));
    lemma_walk_prefix_ok(passes, k);
    lemma_walk_prefix_ok(passes, i + 1);
    lemma_walk_unique(passes, i + 1);
    lemma_walk_keeps_sampling(passes, i + 1, k);
    assert(sampled_key(state_before(passes, k).images, key));
    let mid = target_step(state_before(passes, k), k as usize, passes[k])->Ok_0.0;
    assert(sampled_key(mid.images, key));
}

/// Walking an accepted frame pass by pass from a fresh walk meets every
/// step's precondition: from the state the earlier passes left, each
/// pass has its shape, its target step succeeds, its sampling step
/// succeeds from where the target step left the walk, and ends in the
/// state the next pass starts from.
pub proof fn lemma_accepted_frame_walks(passes: Seq<Pass>, k: int)
    requires
        frame_outcome(passes) is Ok,
        0 <= k < passes.len(),
    ensures
        state_before(passes, 0) == initial_walk(),
        shape_refusal(k as usize, passes[k]) is None,
        target_step(state_before(passes, k), k as usize, passes[k]) is Ok,
        sample_items(
            target_step(state_before(passes, k), k as usize, passes[k])->Ok_0.0,
            k as usize,
            own_target(passes[k]),
            passes[k].items@,
        ) is Ok,
        sample_items(
            target_step(state_before(passes, k), k as usize, passes[k])->Ok_0.0,
            k as usize,
            own_target(passes[k]),
            passes[k].items@,
        )->Ok_0.0 == state_before(passes, k + 1),
{
    assert(walk_passes(passes) is Ok);
    assert(passes.take(0) =~= Seq::<Pass>::empty());
    lemma_walk_prefix_ok(passes, k + 1);
    lemma_walk_prefix_ok(passes, k);
    lemma_walk_unfold(passes, k);
}

/// In an accepted frame, each render image's sampling transition is
/// emitted at most once: no two sampling transitions of the frame — in
/// one pass or in two — name the same image.
pub proof fn lemma_sampling_transition_emitted_once(passes: Seq<Pass>, i: int, a: int, k: int, b: int)
    requires
        frame_outcome(passes) is Ok,
        0 <= i <= k < passes.len(),
        0 <= a < pass_sample_uses(passes, i).len(),
        0 <= b < pass_sample_uses(passes, k).len(),
        i != k || a != b,
    ensures
        pass_sample_uses(passes, i)[a].image != pass_sample_uses(passes, k)[b].image,
{
    assert(walk_passes(passes) is Ok);
    if i == k {
        lemma_pass_uses_fresh(passes, k);
        if a > b {
            assert(pass_sample_uses(passes, k)[b].image != pass_sample_uses(passes, k)[a].image);
        }
    } else {
        lemma_later_pass_uses_differ(passes, i, a, k, b);
    }
}

/// In an accepted frame, a pass that samples an image no earlier pass
/// sampled emits that image's sampling transition, and a pass that
/// samples an image an earlier pass already sampled emits none for it:
/// one transition, at the image's first sampling, and none after.
pub proof fn lemma_first_sampling_emits(passes: Seq<Pass>, k: int, j: int, m: int)
    requires
        frame_outcome(passes) is Ok,
        0 <= k < passes.len(),
        0 <= j < passes[k].items@.len(),
        0 <= m < item_bindings(passes[k].items@[j]).len(),
        item_bindings(passes[k].items@[j])[m].sampled_image is Some,
    ensures
        !sampled_key(state_before(passes, k).images, item_bindings(passes[k].items@[j])[m].sampled_image->0)
            ==> exists|a: int|
            0 <= a < pass_sample_uses(passes, k).len() && pass_sample_uses(passes, k)[a].image == item_bindings(
                passes[k].items@[j],
            )[m].sampled_image->0,
        sampled_key(state_before(passes, k).images, item_bindings(passes[k].items@[j])[m].sampled_image->0)
            ==> forall|a: int|
            0 <= a < pass_sample_uses(passes, k).len() ==> pass_sample_uses(passes, k)[a].image != item_bindings(
                passes[k].items@[j],
            )[m].sampled_image->0,
{
    let key = item_bindings(passes[k].items@[j])[m].sampled_image->0;
    assert(walk_passes(passes) is Ok);
    lemma_pass_uses_fresh(passes, k);
    let pass = passes[k];
    let before = state_before(passes, k);
    lemma_walk_prefix_ok(passes, k + 1);
    lemma_walk_prefix_ok(passes, k);
    lemma_walk_unfold(passes, k);
    let mid = target_step(before, k as usize, pass)->Ok_0.0;
    lemma_target_step_samples_nothing(before, k as usize, pass);
    lemma_sample_items_marks(mid, k as usize, own_target(pass), pass.items@);
    lemma_sample_items_complete(mid, k as usize, own_target(pass), pass.items@);
    assert(sampled_key(state_before(passes, k + 1).images, key));
    if !sampled_key(before.images, key) {
        assert(!sampled_key(mid.images, key));
    }
}

// ---- at most four render images --------------------------------------------------

/// After an accepted prefix, every image one of its passes targeted is
/// held, and no more than the walk's ceiling are.
proof fn lemma_walk_holds_targets(passes: Seq<Pass>, k: int)
    requires
        0 <= k <= passes.len(),
        walk_passes(passes.take(k)) is Ok,
    ensures
        state_before(passes, k).images.len() <= MAX_FRAME_RENDER_IMAGES,
        forall|p: int, key: u64| 0 <= p < k && #[trigger] targets(passes[p], key) ==> holds_key(
            state_before(passes, k).images,
            key,
        ),
    decreases k,
{
    if k == 0 {
        assert(passes.take(0) =~= Seq::<Pass>::empty());
    } else {
        lemma_walk_unfold(passes, k - 1);
        lemma_walk_holds_targets(passes, k - 1);
        let before = state_before(passes, k - 1);
        let pass = passes[k - 1];
        let (mid, _) = target_step(before, (k - 1) as usize, pass)->Ok_0;
        let after = state_before(passes, k);
        lemma_sample_items_keeps(mid, (k - 1) as usize, own_target(pass), pass.items@);
        assert forall|p: int, key: u64| 0 <= p < k && #[trigger] targets(passes[p], key) implies holds_key(after.images, key) by {
            if p < k - 1 {
                let s = choose|s: int| 0 <= s < before.images.len() && #[trigger] before.images[s].key == key;
                assert(mid.images[s].key == key);
                assert(after.images[s].key == key);
            } else {
                if let PassTarget::Image(image, _) = pass.target {
                    match find_key(before.images, image.key) {
                        Some(s) => {
                            let c = choose|i: int| 0 <= i < before.images.len() && before.images[i].key == image.key;
                            assert(s == c);
                            assert(after.images[s].key == key);
                        },
                        None => {
                            assert(after.images[before.images.len() as int].key == key);
                        },
                    }
                }
            }
        }
    }
}

/// An accepted frame touches at most four distinct render images, as
/// targets and sampled sources together: some list of at most four keys
/// holds every image a pass renders into or samples.
pub proof fn lemma_accepted_frame_images_bounded(passes: Seq<Pass>)
    requires
        frame_outcome(passes) is Ok,
    ensures
        exists|keys: Seq<u64>| #![trigger keys.len()] {
            &&& keys.len() <= MAX_FRAME_RENDER_IMAGES
            &&& forall|p: int, key: u64| 0 <= p < passes.len() && #[trigger] targets(passes[p], key) ==> keys.contains(key)
            &&& forall|i: int, j: int, m: int| #![trigger item_bindings(passes[i].items@[j])[m]]
                0 <= i < passes.len() && 0 <= j < passes[i].items@.len() && 0 <= m < item_bindings(
                passes[i].items@[j],
            ).len() && item_bindings(passes[i].items@[j])[m].sampled_image is Some ==> keys.contains(
                item_bindings(passes[i].items@[j])[m].sampled_image->0,
            )
        },
{
    let n = passes.len() as int;
    assert(passes.take(n) =~= passes);
    lemma_walk_holds_targets(passes, n);
    let images = state_before(passes, n).images;
    let keys = images.map_values(|e: ImageEntry| e.key);
    assert forall|p: int, key: u64| 0 <= p < n && #[trigger] targets(passes[p], key) implies keys.contains(key) by {
        let s = choose|s: int| 0 <= s < images.len() && #[trigger] images[s].key == key;
        assert(keys[s] == key);
    }
    assert forall|i: int, j: int, m: int| #![trigger item_bindings(passes[i].items@[j])[m]]
        0 <= i < n && 0 <= j < passes[i].items@.len() && 0 <= m < item_bindings(passes[i].items@[j]).len()
            && item_bindings(passes[i].items@[j])[m].sampled_image is Some implies keys.contains(
        item_bindings(passes[i].items@[j])[m].sampled_image->0,
    ) by {
        lemma_sampling_follows_rendering(passes, i, j, m);
        let key = item_bindings(passes[i].items@[j])[m].sampled_image->0;
        let p = choose|p: int| 0 <= p < i && targets(#[trigger] passes[p], key);
        assert(targets(passes[p], key));
    }
    assert(keys.len() <= MAX_FRAME_RENDER_IMAGES);
}

// ---- what a later pass loads or samples was stored -----------------------------

/// The last pass before pass `k` to render into image `key`, if any.
pub open spec fn last_target_before(passes: Seq<Pass>, k: int, key: u64) -> Option<int>
    decreases k,
{
    if k <= 0 || k > passes.len() {
        None
    } else if targets(passes[k - 1], key) {
        Some(k - 1)
    } else {
        last_target_before(passes, k - 1, key)
    }
}

/// Whether a pass renders into an image and discards what it rendered.
pub open spec fn discards(pass: Pass) -> bool {
    pass.target matches PassTarget::Image(_, attachment) && attachment.store is Discard
}

/// After an accepted prefix of `k` passes, each targeted image's
/// discarded flag is what its last targeting pass did with its contents.
spec fn discards_recorded(passes: Seq<Pass>, k: int, images: Seq<ImageEntry>) -> bool {
    forall|s: int| 0 <= s < images.len() ==> (#[trigger] last_target_before(passes, k, images[s].key) matches Some(p)
        && images[s].discarded == discards(passes[p]))
}

proof fn lemma_walk_discards(passes: Seq<Pass>, k: int)
    requires
        0 <= k <= passes.len(),
        walk_passes(passes.take(k)) is Ok,
    ensures
        discards_recorded(passes, k, state_before(passes, k).images),
    decreases k,
{
    if k == 0 {
        assert(passes.take(0) =~= Seq::<Pass>::empty());
    } else {
        lemma_walk_unfold(passes, k - 1);
        lemma_walk_discards(passes, k - 1);
        lemma_walk_prefix_ok(passes.take(k), k - 1);
        assert(passes.take(k).take(k - 1) =~= passes.take(k - 1));
        lemma_walk_unique(passes, k - 1);
        let before = state_before(passes, k - 1);
        let pass = passes[k - 1];
        let (mid, _) = target_step(before, (k - 1) as usize, pass)->Ok_0;
        let after = state_before(passes, k);
        lemma_sample_items_keeps(mid, (k - 1) as usize, own_target(pass), pass.items@);
        assert forall|s: int| 0 <= s < after.images.len() implies (#[trigger] last_target_before(
            passes,
            k,
            after.images[s].key,
        ) matches Some(p) && after.images[s].discarded == discards(passes[p])) by {
            let key = after.images[s].key;
            assert(mid.images[s].key == key && mid.images[s].discarded == after.images[s].discarded);
            match pass.target {
                PassTarget::Image(image, attachment) => {
                    if key == image.key {
                        assert(targets(passes[k - 1], key));
                        match find_key(before.images, image.key) {
                            Some(slot) => {
                                let c = choose|i: int| 0 <= i < before.images.len() && before.images[i].key == image.key;
                                assert(slot == c);
                                if s != slot {
                                    assert(before.images[s].key == key);
                                    assert(before.images[slot].key == key);
                                    assert(false);
                                }
                            },
                            None => {
                                if s < before.images.len() {
                                    assert(before.images[s].key == image.key);
                                    assert(exists|i: int| 0 <= i < before.images.len() && before.images[i].key == image.key);
                                    assert(false);
                                }
                            },
                        }
                    } else {
                        assert(!targets(passes[k - 1], key));
                        assert(last_target_before(passes, k, key) == last_target_before(passes, k - 1, key));
                        let slot = match find_key(before.images, image.key) {
                            Some(i) => i,
                            None => before.images.len() as int,
                        };
                        if let Some(i) = find_key(before.images, image.key) {
                            let c = choose|i: int| 0 <= i < before.images.len() && before.images[i].key == image.key;
                            assert(i == c);
                        }
                        assert(s != slot);
                        assert(s < before.images.len());
                        assert(before.images[s] == mid.images[s]);
                        assert(last_target_before(passes, k - 1, before.images[s].key) matches Some(p)
                            && before.images[s].discarded == discards(passes[p]));
                    }
                },
                PassTarget::Surface => {
                    assert(!targets(passes[k - 1], key));
                    assert(last_target_before(passes, k, key) == last_target_before(passes, k - 1, key));
                    assert(before.images[s] == mid.images[s]);
                    assert(last_target_before(passes, k - 1, before.images[s].key) matches Some(p)
                        && before.images[s].discarded == discards(passes[p]));
                },
            }
        }
    }
}

/// A run of bindings samples only images whose slot, before the run,
/// holds contents that were not discarded.
proof fn lemma_sampled_bindings_kept(state: WalkState, index: usize, own: Option<u64>, bindings: Seq<BindingRef>, m: int)
    requires
        sample_bindings(state, index, own, bindings) is Ok,
        0 <= m < bindings.len(),
        bindings[m].sampled_image is Some,
    ensures
        exists|s: int| 0 <= s < state.images.len() && #[trigger] state.images[s].key == bindings[m].sampled_image->0
            && !state.images[s].discarded,
    decreases bindings.len(),
{
    let key = bindings[m].sampled_image->0;
    let mid = sample_bindings(state, index, own, bindings.drop_last())->Ok_0.0;
    lemma_sample_bindings_keeps(state, index, own, bindings.drop_last());
    if m == bindings.len() - 1 {
        let slot = find_key(mid.images, key)->0;
        let c = choose|i: int| 0 <= i < mid.images.len() && mid.images[i].key == key;
        assert(slot == c);
        assert(state.images[slot].key == key && !state.images[slot].discarded);
    } else {
        lemma_sampled_bindings_kept(state, index, own, bindings.drop_last(), m);
    }
}

proof fn lemma_sampled_items_kept(state: WalkState, index: usize, own: Option<u64>, items: Seq<Item>, j: int, m: int)
    requires
        sample_items(state, index, own, items) is Ok,
        0 <= j < items.len(),
        0 <= m < item_bindings(items[j]).len(),
        item_bindings(items[j])[m].sampled_image is Some,
    ensures
        exists|s: int| 0 <= s < state.images.len() && #[trigger] state.images[s].key == item_bindings(items[j])[m].sampled_image->0
            && !state.images[s].discarded,
    decreases items.len(),
{
    let key = item_bindings(items[j])[m].sampled_image->0;
    let mid = sample_items(state, index, own, items.drop_last())->Ok_0.0;
    lemma_sample_items_keeps(state, index, own, items.drop_last());
    if j == items.len() - 1 {
        lemma_sampled_bindings_kept(mid, index, own, item_bindings(items.last()), m);
        let s = choose|s: int| 0 <= s < mid.images.len() && #[trigger] mid.images[s].key == key && !mid.images[s].discarded;
        assert(state.images[s].key == key && !state.images[s].discarded);
    } else {
        lemma_sampled_items_kept(state, index, own, items.drop_last(), j, m);
    }
}

/// In an accepted frame, the contents a pass samples were stored: the
/// last earlier pass to render into the sampled image kept its contents.
pub proof fn lemma_sampled_contents_were_stored(passes: Seq<Pass>, i: int, j: int, m: int)
    requires
        frame_outcome(passes) is Ok,
        0 <= i < passes.len(),
        0 <= j < passes[i].items@.len(),
        0 <= m < item_bindings(passes[i].items@[j]).len(),
        item_bindings(passes[i].items@[j])[m].sampled_image is Some,
    ensures
        last_target_before(passes, i, item_bindings(passes[i].items@[j])[m].sampled_image->0) matches Some(p)
            && !discards(passes[p]),
{
    let key = item_bindings(passes[i].items@[j])[m].sampled_image->0;
    let pass = passes[i];
    lemma_walk_prefix_ok(passes, i + 1);
    lemma_walk_prefix_ok(passes, i);
    lemma_walk_unfold(passes, i);
    lemma_walk_unique(passes, i);
    lemma_walk_discards(passes, i);
    lemma_sampling_follows_rendering(passes, i, j, m);
    let before = state_before(passes, i);
    let (mid, _) = target_step(before, i as usize, pass)->Ok_0;
    lemma_sampled_items_kept(mid, i as usize, own_target(pass), pass.items@, j, m);
    let s = choose|s: int| 0 <= s < mid.images.len() && #[trigger] mid.images[s].key == key && !mid.images[s].discarded;
    // The sampled image is not the pass's own target, so its slot is
    // the one it held before the pass.
    if let PassTarget::Image(image, _) = pass.target {
        assert(image.key != key);
        let slot = match find_key(before.images, image.key) {
            Some(x) => x,
            None => before.images.len() as int,
        };
        if let Some(x) = find_key(before.images, image.key) {
            let c = choose|y: int| 0 <= y < before.images.len() && before.images[y].key == image.key;
            assert(x == c);
        }
        assert(s != slot);
    }
    assert(s < before.images.len());
    assert(before.images[s] == mid.images[s]);
    assert(last_target_before(passes, i, before.images[s].key) matches Some(p) && before.images[s].discarded == discards(passes[p]));
}

/// In an accepted frame, a pass that loads a render image finds the
/// contents the last earlier pass to render into it stored: that pass
/// exists, and it did not discard.
pub proof fn lemma_loaded_contents_were_stored(passes: Seq<Pass>, k: int)
    requires
        frame_outcome(passes) is Ok,
        0 <= k < passes.len(),
        passes[k].target matches PassTarget::Image(_, attachment) && attachment.load is Load,
    ensures
        passes[k].target matches PassTarget::Image(image, _) && (last_target_before(passes, k, image.key) matches Some(p)
            && !discards(passes[p])),
{
    lemma_walk_prefix_ok(passes, k + 1);
    lemma_walk_prefix_ok(passes, k);
    lemma_walk_unfold(passes, k);
    lemma_walk_discards(passes, k);
    let before = state_before(passes, k);
    if let PassTarget::Image(image, _) = passes[k].target {
        let slot = find_key(before.images, image.key)->0;
        let c = choose|y: int| 0 <= y < before.images.len() && before.images[y].key == image.key;
        assert(slot == c);
        assert(before.images[slot].key == image.key);
        assert(!before.images[slot].discarded);
    }
}

// ---- one buffer, one write -------------------------------------------------------

/// Every buffer has at most one recorded claim.
spec fn claims_unique(buffers: Seq<FrameDataRef>) -> bool {
    forall|a: int, b: int| 0 <= a < buffers.len() && 0 <= b < buffers.len() && a != b ==> buffers[a].buffer != buffers[b].buffer
}

/// `data` agrees with the claim recorded for its buffer.
spec fn agrees(state: RetentionState, data: FrameDataRef) -> bool {
    claim_of(state.buffers, data.buffer) matches Some(claim) && claim.same_data(data)
}

/// Claims stay unique, and every agreement made so far survives.
spec fn claims_kept(before: RetentionState, after: RetentionState) -> bool {
    &&& claims_unique(after.buffers)
    &&& forall|data: FrameDataRef| agrees(before, data) ==> #[trigger] agrees(after, data)
}

proof fn lemma_claim_at(buffers: Seq<FrameDataRef>, index: int)
    requires
        claims_unique(buffers),
        0 <= index < buffers.len(),
    ensures
        claim_of(buffers, buffers[index].buffer) == Some(buffers[index]),
{
    let b = buffers[index].buffer;
    let c = choose|i: int| 0 <= i < buffers.len() && buffers[i].buffer == b;
    assert(0 <= c < buffers.len() && buffers[c].buffer == b);
}

proof fn lemma_note_frame_data_keeps(state: RetentionState, data: FrameDataRef)
    requires
        claims_unique(state.buffers),
        note_frame_data(state, data) is Ok,
    ensures
        claims_kept(state, note_frame_data(state, data)->Ok_0),
        agrees(note_frame_data(state, data)->Ok_0, data),
{
    let after = note_frame_data(state, data)->Ok_0;
    match claim_of(state.buffers, data.buffer) {
        Some(prior) => {},
        None => {
            let mid = note_key(state, data.buffer)->Ok_0;
            assert(mid.buffers == state.buffers);
            let old_buffers = state.buffers;
            let pushed = old_buffers.push(data);
            assert(after.buffers == pushed);
            assert forall|i: int| 0 <= i < old_buffers.len() implies old_buffers[i].buffer != data.buffer by {
                if old_buffers[i].buffer == data.buffer {
                    assert(exists|j: int| 0 <= j < old_buffers.len() && old_buffers[j].buffer == data.buffer);
                }
            }
            assert(claims_unique(pushed));
            assert(pushed[old_buffers.len() as int] == data);
            lemma_claim_at(pushed, old_buffers.len() as int);
            assert forall|d: FrameDataRef| agrees(state, d) implies #[trigger] agrees(after, d) by {
                let c = choose|i: int| 0 <= i < old_buffers.len() && old_buffers[i].buffer == d.buffer;
                assert(0 <= c < old_buffers.len() && old_buffers[c].buffer == d.buffer);
                assert(pushed[c] == old_buffers[c]);
                lemma_claim_at(pushed, c);
            }
        },
    }
}

proof fn lemma_note_key_keeps(state: RetentionState, key: u64)
    requires
        claims_unique(state.buffers),
        note_key(state, key) is Ok,
    ensures
        claims_kept(state, note_key(state, key)->Ok_0),
{
    assert(note_key(state, key)->Ok_0.buffers == state.buffers);
}

proof fn lemma_note_bindings_keeps(state: RetentionState, bindings: Seq<BindingRef>)
    requires
        claims_unique(state.buffers),
        note_bindings(state, bindings) is Ok,
    ensures
        claims_kept(state, note_bindings(state, bindings)->Ok_0),
    decreases bindings.len(),
{
    if bindings.len() > 0 {
        lemma_note_bindings_keeps(state, bindings.drop_last());
        let mid = note_bindings(state, bindings.drop_last())->Ok_0;
        lemma_note_key_keeps(mid, bindings.last().key);
    }
}

proof fn lemma_note_item_keeps(state: RetentionState, item: Item)
    requires
        claims_unique(state.buffers),
        note_item(state, item) is Ok,
    ensures
        claims_kept(state, note_item(state, item)->Ok_0),
        item.frame_data matches Some(data) ==> agrees(note_item(state, item)->Ok_0, data),
{
    let after_mesh = match item.mesh {
        Some(mesh) => note_key(state, mesh.key),
        None => Ok(state),
    };
    if let Some(mesh) = item.mesh {
        lemma_note_key_keeps(state, mesh.key);
    }
    let mid = after_mesh->Ok_0;
    lemma_note_bindings_keeps(mid, item_bindings(item));
    let last = note_bindings(mid, item_bindings(item))->Ok_0;
    if let Some(data) = item.frame_data {
        lemma_note_frame_data_keeps(last, data);
    }
}

proof fn lemma_note_items_keeps(state: RetentionState, items: Seq<Item>)
    requires
        claims_unique(state.buffers),
        note_items(state, items) is Ok,
    ensures
        claims_kept(state, note_items(state, items)->Ok_0),
        forall|j: int| 0 <= j < items.len() && (#[trigger] items[j]).frame_data is Some ==> agrees(
            note_items(state, items)->Ok_0,
            items[j].frame_data->0,
        ),
    decreases items.len(),
{
    if items.len() > 0 {
        lemma_note_items_keeps(state, items.drop_last());
        let mid = note_items(state, items.drop_last())->Ok_0;
        lemma_note_item_keeps(mid, items.last());
        let after = note_items(state, items)->Ok_0;
        assert forall|j: int| 0 <= j < items.len() && (#[trigger] items[j]).frame_data is Some implies agrees(
            after,
            items[j].frame_data->0,
        ) by {
            if j < items.len() - 1 {
                assert(items.drop_last()[j] == items[j]);
                assert(agrees(mid, items[j].frame_data->0));
            }
        }
    }
}

proof fn lemma_note_passes_keeps(passes: Seq<Pass>)
    requires
        note_passes(passes) is Ok,
    ensures
        claims_unique(note_passes(passes)->Ok_0.buffers),
        forall|i: int, j: int| #![trigger passes[i].items@[j]]
            0 <= i < passes.len() && 0 <= j < passes[i].items@.len() && passes[i].items@[j].frame_data is Some
                ==> agrees(note_passes(passes)->Ok_0, passes[i].items@[j].frame_data->0),
    decreases passes.len(),
{
    if passes.len() > 0 {
        lemma_note_passes_keeps(passes.drop_last());
        let state = note_passes(passes.drop_last())->Ok_0;
        let pass = passes.last();
        let after_target = match pass.target {
            PassTarget::Image(image, _) => note_key(state, image.key),
            PassTarget::Surface => Ok(state),
        };
        if let PassTarget::Image(image, _) = pass.target {
            lemma_note_key_keeps(state, image.key);
        }
        let mid = after_target->Ok_0;
        lemma_note_items_keeps(mid, pass.items@);
        let after = note_passes(passes)->Ok_0;
        assert forall|i: int, j: int| #![trigger passes[i].items@[j]]
            0 <= i < passes.len() && 0 <= j < passes[i].items@.len() && passes[i].items@[j].frame_data is Some
                implies agrees(after, passes[i].items@[j].frame_data->0) by {
            let data = passes[i].items@[j].frame_data->0;
            if i < passes.len() - 1 {
                assert(passes.drop_last()[i] == passes[i]);
                assert(agrees(state, data));
                assert(agrees(mid, data));
            } else {
                assert(pass.items@[j] == passes[i].items@[j]);
            }
        }
    } else {
        assert(claims_unique(initial_retention().buffers));
    }
}

/// In an accepted frame, one buffer carries one write: any two items
/// that carry per-frame data for the same buffer carry the same data —
/// the same bytes, the same length, the same instance count — so no copy
/// can silently win over another.
pub proof fn lemma_one_write_per_buffer(passes: Seq<Pass>, i1: int, j1: int, i2: int, j2: int)
    requires
        frame_outcome(passes) is Ok,
        0 <= i1 < passes.len(),
        0 <= j1 < passes[i1].items@.len(),
        0 <= i2 < passes.len(),
        0 <= j2 < passes[i2].items@.len(),
        passes[i1].items@[j1].frame_data matches Some(a) && passes[i2].items@[j2].frame_data matches Some(b)
            && a.buffer == b.buffer,
    ensures
        passes[i1].items@[j1].frame_data->0.same_data(passes[i2].items@[j2].frame_data->0),
{
    lemma_note_passes_keeps(passes);
    let state = note_passes(passes)->Ok_0;
    assert(agrees(state, passes[i1].items@[j1].frame_data->0));
    assert(agrees(state, passes[i2].items@[j2].frame_data->0));
}

// ---- retention ---------------------------------------------------------------

/// The retention count holds distinct keys, at most the table's width.
pub open spec fn retention_bounded(state: RetentionState) -> bool {
    &&& state.seen.len() <= MAX_RETAINED_RESOURCES
    &&& state.seen.no_duplicates()
}

proof fn lemma_note_key_bounded(state: RetentionState, key: u64)
    requires
        retention_bounded(state),
    ensures
        note_key(state, key) matches Ok(after) ==> retention_bounded(after) && after.seen.contains(key),
{
    if !state.seen.contains(key) && state.seen.len() < MAX_RETAINED_RESOURCES {
        let after = state.seen.push(key);
        assert forall|a: int, b: int| 0 <= a < after.len() && 0 <= b < after.len() && a != b implies after[a]
            != after[b] by {
            if a == state.seen.len() as int {
                assert(state.seen.contains(after[b]) || b == a);
            }
            if b == state.seen.len() as int {
                assert(state.seen.contains(after[a]) || b == a);
            }
        }
        assert(after[state.seen.len() as int] == key);
    }
}

proof fn lemma_note_bindings_bounded(state: RetentionState, bindings: Seq<BindingRef>)
    requires
        retention_bounded(state),
    ensures
        note_bindings(state, bindings) matches Ok(after) ==> retention_bounded(after),
    decreases bindings.len(),
{
    if bindings.len() > 0 {
        lemma_note_bindings_bounded(state, bindings.drop_last());
        if let Ok(mid) = note_bindings(state, bindings.drop_last()) {
            lemma_note_key_bounded(mid, bindings.last().key);
        }
    }
}

proof fn lemma_note_item_bounded(state: RetentionState, item: Item)
    requires
        retention_bounded(state),
    ensures
        note_item(state, item) matches Ok(after) ==> retention_bounded(after),
{
    if let Some(mesh) = item.mesh {
        lemma_note_key_bounded(state, mesh.key);
    }
    let after_mesh = match item.mesh {
        Some(mesh) => note_key(state, mesh.key),
        None => Ok(state),
    };
    if let Ok(mid) = after_mesh {
        lemma_note_bindings_bounded(mid, item_bindings(item));
        if let Ok(last) = note_bindings(mid, item_bindings(item)) {
            if let Some(data) = item.frame_data {
                lemma_note_key_bounded(last, data.buffer);
            }
        }
    }
}

proof fn lemma_note_items_bounded(state: RetentionState, items: Seq<Item>)
    requires
        retention_bounded(state),
    ensures
        note_items(state, items) matches Ok(after) ==> retention_bounded(after),
    decreases items.len(),
{
    if items.len() > 0 {
        lemma_note_items_bounded(state, items.drop_last());
        if let Ok(mid) = note_items(state, items.drop_last()) {
            lemma_note_item_bounded(mid, items.last());
        }
    }
}

proof fn lemma_note_passes_bounded(passes: Seq<Pass>)
    ensures
        note_passes(passes) matches Ok(after) ==> retention_bounded(after),
    decreases passes.len(),
{
    if passes.len() == 0 {
        assert(initial_retention().seen.no_duplicates());
    } else {
        lemma_note_passes_bounded(passes.drop_last());
        if let Ok(state) = note_passes(passes.drop_last()) {
            let pass = passes.last();
            if let PassTarget::Image(image, _) = pass.target {
                lemma_note_key_bounded(state, image.key);
            }
            let after_target = match pass.target {
                PassTarget::Image(image, _) => note_key(state, image.key),
                PassTarget::Surface => Ok(state),
            };
            if let Ok(mid) = after_target {
                lemma_note_items_bounded(mid, pass.items@);
            }
        }
    }
}

/// An accepted frame keeps at most the retention table's width of
/// distinct resources alive — per-frame buffers, meshes, bindings and
/// pass-target images together, each counted once however many
/// mentions.
pub proof fn lemma_accepted_frame_fits_retention(passes: Seq<Pass>)
    requires
        frame_outcome(passes) is Ok,
    ensures
        note_passes(passes) is Ok,
        retention_bounded(note_passes(passes)->Ok_0),
{
    lemma_note_passes_bounded(passes);
}

// ---- the frame ring over a run of calls -----------------------------------------

/// A parked ring answers "resize" at the top of a render call, before
/// any fence is waited, any frame recorded or any slot spent, and
/// reports a zero extent; it stays parked through every step but a
/// resize, which alone thaws it.
pub proof fn lemma_dormant_ring_answers_resize(v: RingView, idle_result: i32, plan: ChainPlan)
    requires
        ring_wf(v),
        v.dormant,
    ensures
        ring_render_guard(v, false) == Ok::<Option<PresentOutcome>, crate::error::TargetError>(
            Some(PresentOutcome::NeedsResize),
        ),
        ring_extent(v) == zero_extent(),
        ring_fence_cleared(v).dormant,
        ring_submitted(v).dormant,
        ring_abort(v, idle_result).dormant,
        ring_chain_built(v, plan).dormant,
        ring_teardown(v).dormant,
        !ring_resize(v).dormant,
{
}

/// The frame slot stays below two, and only a submit moves it — to the
/// next slot round the ring. Waiting a fence, a failure, a resize, a
/// teardown and a chain build all leave it where it was.
pub proof fn lemma_slot_advances_only_on_submit(v: RingView, idle_result: i32, plan: ChainPlan)
    requires
        ring_wf(v),
    ensures
        ring_wf(ring_submitted(v)),
        ring_submitted(v).slot == FrameRing::next_slot(v.slot),
        ring_submitted(v).slot != v.slot,
        ring_wf(ring_fence_cleared(v)) && ring_fence_cleared(v).slot == v.slot,
        ring_wf(ring_abort(v, idle_result)) && ring_abort(v, idle_result).slot == v.slot,
        ring_wf(ring_resize(v)) && ring_resize(v).slot == v.slot,
        ring_wf(ring_teardown(v)) && ring_teardown(v).slot == v.slot,
        ring_wf(ring_chain_built(v, plan)) && ring_chain_built(v, plan).slot == v.slot,
{
    assert(no_pending().len() == 2);
}

/// A resize that builds no chain — the resize to a zero extent — leaves
/// the ring thawed, with nothing pending and no chain: the next render
/// passes the entry guard, waits on no fence, and answers "resize" at
/// the chain guard, with its slot and its zero extent unchanged.
pub proof fn lemma_zero_resize_answers_resize(v: RingView)
    requires
        ring_wf(v),
    ensures
        ring_render_guard(ring_resize(v), false) == Ok::<Option<PresentOutcome>, crate::error::TargetError>(None),
        !ring_must_wait(ring_resize(v)),
        ring_chain_guard(ring_resize(v)) == Some(PresentOutcome::NeedsResize),
        ring_extent(ring_resize(v)) == zero_extent(),
        ring_resize(v).slot == v.slot,
{
}

// ---- the validation tallies over a run of records --------------------------------

/// The texts of the error records of `log`, in arrival order.
pub open spec fn error_texts(log: Seq<(u32, Seq<char>)>) -> Seq<Seq<char>>
    decreases log.len(),
{
    if log.len() == 0 {
        Seq::empty()
    } else if is_error(log.last().0) {
        error_texts(log.drop_last()).push(log.last().1)
    } else {
        error_texts(log.drop_last())
    }
}

/// How many records of `log` are warnings and not errors.
pub open spec fn warning_count(log: Seq<(u32, Seq<char>)>) -> nat
    decreases log.len(),
{
    if log.len() == 0 {
        0
    } else if is_warning(log.last().0) {
        warning_count(log.drop_last()) + 1
    } else {
        warning_count(log.drop_last())
    }
}

/// The tallies wrap at two to the sixty-fourth.
pub open spec fn wrapped(n: nat) -> u64 {
    (n % 0x1_0000_0000_0000_0000) as u64
}

proof fn lemma_wrap_step(n: nat)
    ensures
        vstd::wrapping::u64_specs::wrapping_add(wrapped(n), 1) == wrapped(n + 1),
{
    let m: int = 0x1_0000_0000_0000_0000;
    let ni: int = n as int;
    let q: int = ni / m;
    let r: int = ni % m;
    assert(ni == q * m + r && 0 <= r < m && q >= 0) by (nonlinear_arith)
        requires
            m > 0,
            ni >= 0,
            q == ni / m,
            r == ni % m,
    ;
    if r + 1 == m {
        assert(ni + 1 == (q + 1) * m + 0) by (nonlinear_arith)
            requires
                ni == q * m + r,
                r + 1 == m,
        ;
        vstd::arithmetic::div_mod::lemma_fundamental_div_mod_converse(ni + 1, m, q + 1, 0);
    } else {
        vstd::arithmetic::div_mod::lemma_fundamental_div_mod_converse(ni + 1, m, q, r + 1);
    }
}

/// Over any run of records from nothing seen, the error tally counts the
/// error records and the warning tally the warning records (each
/// wrapping at two to the sixty-fourth), and exactly the first
/// [`RETAINED_MESSAGES`] error texts are kept, in arrival order — a
/// warning's text never is.
pub proof fn lemma_validation_tallies(log: Seq<(u32, Seq<char>)>)
    ensures
        counters_replay(log).errors == wrapped(error_texts(log).len()),
        counters_replay(log).warnings == wrapped(warning_count(log)),
        counters_replay(log).kept == error_texts(log).take(
            if error_texts(log).len() < RETAINED_MESSAGES { error_texts(log).len() as int } else { RETAINED_MESSAGES as int },
        ),
    decreases log.len(),
{
    if log.len() == 0 {
        assert(error_texts(log).take(0) =~= Seq::<Seq<char>>::empty());
    } else {
        let prev = log.drop_last();
        lemma_validation_tallies(prev);
        lemma_wrap_step(error_texts(prev).len());
        lemma_wrap_step(warning_count(prev));
        let e = error_texts(prev);
        if is_error(log.last().0) {
            if e.len() < RETAINED_MESSAGES {
                assert(e.take(e.len() as int) =~= e);
                assert(e.push(log.last().1).take(e.len() as int + 1) =~= e.push(log.last().1));
            } else {
                assert(e.push(log.last().1).take(RETAINED_MESSAGES as int) =~= e.take(RETAINED_MESSAGES as int));
            }
        }
    }
}

// ---- the surface's first use ----------------------------------------------------

/// The surface colour and the target's depth leave their first-use state
/// once per frame: from a fresh walk, a surface pass that clears both
/// transitions them from first use, after which the walk records both
/// as used, and every later surface pass with depth — loading or
/// clearing — transitions them steadily.
pub proof fn lemma_surface_first_use_then_steady(p0: Pass, p1: Pass)
    requires
        p0.target is Surface,
        p0.color@.len() == 1,
        p0.color@[0].load is Clear,
        p0.depth matches Some(d) && d.load is Clear,
        p1.target is Surface,
        p1.color@.len() == 1,
        p1.depth is Some,
    ensures
        target_step(initial_walk(), 0, p0) matches Ok((after, uses)) && {
            &&& uses == TargetUses {
                color: Some((ImageUse::ColorAttachmentFirstUse, ImageUse::ColorAttachment)),
                depth: Some((ImageUse::DepthAttachmentFirstUse, ImageUse::DepthAttachment)),
            }
            &&& after.surface_used
            &&& after.depth_used
            &&& target_step(after, 1, p1) matches Ok((_, next)) && next == TargetUses {
                color: Some((ImageUse::ColorAttachment, ImageUse::ColorAttachment)),
                depth: Some((ImageUse::DepthAttachment, ImageUse::DepthAttachment)),
            }
        },
{
}

} // verus!
