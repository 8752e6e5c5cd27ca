use ash::vk;
use renew_rhi::frame::{
    clear_color_bits, clear_depth_bits, color_attachment, Attachment, BindingRef, Bindings, ClearValue, FrameDataRef,
    FrameRefusal, ImageRef, Item, ItemList, LoadOp, MeshRef, Pass, RenderDesc, StoreOp, MAX_FRAME_RENDER_IMAGES,
    MAX_RETAINED_RESOURCES, TargetUses,
};
use renew_rhi::render_image::RenderImageKind;
use renew_rhi::retention::{already_retained, check_retention_bound, count_matters, retained_of, BlockWrites, Retained};
use renew_rhi::transition::ImageUse;
use renew_rhi::walk::{check_frame_contract, FrameWalk};
use renew_rhi::{Color, PipelineInfo, TargetFormat};

fn colour(r: f32, g: f32, b: f32, a: f32) -> Color {
    Color::from_bits(r.to_bits(), g.to_bits(), b.to_bits(), a.to_bits())
}

fn black() -> Attachment {
    color_attachment(colour(0.0, 0.0, 0.0, 1.0))
}

fn depth_clear(value: f32) -> Attachment {
    Attachment::new(LoadOp::Clear(ClearValue::Depth(value.to_bits())), StoreOp::Store)
}

fn pipeline(format: TargetFormat) -> PipelineInfo {
    PipelineInfo {
        format,
        vertex_count: 3,
        vertex_input: false,
        vertex_stride: 0,
        depth: false,
        push_constant_size: 0,
        sampled_bindings: 0,
    }
}

fn image(key: u64, kind: RenderImageKind) -> ImageRef {
    ImageRef { key, kind }
}

fn outcome(passes: &[Pass<'_>]) -> Result<(), FrameRefusal> {
    check_frame_contract(&RenderDesc::new(passes))
}

#[test]
fn the_colour_attachment_clears_to_its_value_and_stores() {
    let attachment = color_attachment(colour(0.25, 0.5, 0.75, 1.0));
    assert!(matches!(attachment.store, StoreOp::Store));
    let LoadOp::Clear(ClearValue::Color(c)) = attachment.load else {
        panic!("a colour attachment clears to a colour, got {:?}", attachment.load);
    };
    assert_eq!([c.r, c.g, c.b, c.a], [0.25f32, 0.5, 0.75, 1.0].map(f32::to_bits));
}

#[test]
fn an_empty_binding_list_is_consistent_across_its_accessors() {
    let bindings = Bindings::new(&[]);
    assert_eq!(bindings.len(), 0);
    assert!(bindings.is_empty());
    assert_eq!(bindings.to_vec().len(), 0);
}

#[test]
fn every_op_maps_to_its_vulkan_spelling() {
    let clear = LoadOp::Clear(ClearValue::Color(colour(0.0, 0.0, 0.0, 1.0)));
    assert_eq!(clear.to_vk(), vk::AttachmentLoadOp::CLEAR.as_raw());
    assert_eq!(LoadOp::Load.to_vk(), vk::AttachmentLoadOp::LOAD.as_raw());
    assert_eq!(StoreOp::Store.to_vk(), vk::AttachmentStoreOp::STORE.as_raw());
    assert_eq!(StoreOp::Discard.to_vk(), vk::AttachmentStoreOp::DONT_CARE.as_raw());
}

#[test]
fn clear_values_survive_conversion() {
    let color = Attachment::new(LoadOp::Clear(ClearValue::Color(colour(0.25, 0.5, 0.75, 1.0))), StoreOp::Store);
    assert_eq!(clear_color_bits(&color), [0.25f32, 0.5, 0.75, 1.0].map(f32::to_bits));
    let depth = Attachment::new(LoadOp::Clear(ClearValue::Depth(0.5f32.to_bits())), StoreOp::Discard);
    assert_eq!(f32::from_bits(clear_depth_bits(&depth)).to_bits(), 0.5f32.to_bits());
    let load = Attachment::new(LoadOp::Load, StoreOp::Store);
    assert_eq!(clear_depth_bits(&load), 0.0f32.to_bits());
    assert_eq!(clear_color_bits(&load), [0; 4]);
}

#[test]
fn a_frame_of_one_cleared_surface_pass_is_accepted() {
    let color = [black()];
    let items = [Item::new(pipeline(TargetFormat::Bgra8Srgb))];
    assert_eq!(outcome(&[Pass::new(&color, &items)]), Ok(()));
}

#[test]
fn a_frame_needs_a_pass_and_a_surface_pass() {
    assert_eq!(outcome(&[]), Err(FrameRefusal::NoPasses));
    let target = image(1, RenderImageKind::Color);
    let passes = [Pass::render_to(target, black(), &[])];
    assert_eq!(outcome(&passes), Err(FrameRefusal::NoSurfacePass));
}

#[test]
fn the_surface_pass_shape_is_one_colour_attachment() {
    let none: [Attachment; 0] = [];
    assert_eq!(outcome(&[Pass::new(&none, &[])]), Err(FrameRefusal::SurfaceColorCount { pass: 0 }));
    let two = [black(), black()];
    assert_eq!(outcome(&[Pass::new(&two, &[])]), Err(FrameRefusal::SurfaceColorCount { pass: 0 }));
    let depth_as_colour = [depth_clear(1.0)];
    assert_eq!(outcome(&[Pass::new(&depth_as_colour, &[])]), Err(FrameRefusal::ColorClearKind { pass: 0 }));
}

#[test]
fn the_first_use_of_the_surface_or_its_depth_never_loads() {
    let load = [Attachment::new(LoadOp::Load, StoreOp::Store)];
    assert_eq!(outcome(&[Pass::new(&load, &[])]), Err(FrameRefusal::FirstSurfaceLoad { pass: 0 }));
    let color = [black()];
    // The second surface pass may load what the first stored.
    assert_eq!(outcome(&[Pass::new(&color, &[]), Pass::new(&load, &[])]), Ok(()));

    let first_depth_loads = [Pass::new(&color, &[]).depth(Attachment::new(LoadOp::Load, StoreOp::Store))];
    assert_eq!(outcome(&first_depth_loads), Err(FrameRefusal::FirstDepthLoad { pass: 0 }));
    let later_depth_loads = [
        Pass::new(&color, &[]).depth(depth_clear(1.0)),
        Pass::new(&load, &[]).depth(Attachment::new(LoadOp::Load, StoreOp::Store)),
    ];
    assert_eq!(outcome(&later_depth_loads), Ok(()));
}

#[test]
fn a_depth_clear_is_finite_and_in_range() {
    let color = [black()];
    for good in [0.0f32, 1.0, 0.5, -0.0] {
        assert_eq!(outcome(&[Pass::new(&color, &[]).depth(depth_clear(good))]), Ok(()), "{good}");
    }
    for bad in [1.5f32, -0.5, f32::NAN, f32::INFINITY] {
        assert_eq!(
            outcome(&[Pass::new(&color, &[]).depth(depth_clear(bad))]),
            Err(FrameRefusal::DepthClear { pass: 0 }),
            "{bad}"
        );
    }
}

#[test]
fn render_images_are_written_before_they_are_read() {
    let color = [black()];
    let target = image(7, RenderImageKind::Color);
    let sampler = pipeline(TargetFormat::Bgra8Srgb);
    let sampling = PipelineInfo { sampled_bindings: 1, ..sampler };
    let reads = [BindingRef { key: 100, sampled_image: Some(7) }];
    let draw = [Item::new(sampling).bindings(&reads)];

    let written_then_read = [Pass::render_to(target, black(), &[]), Pass::new(&color, &draw)];
    assert_eq!(outcome(&written_then_read), Ok(()));

    let read_unwritten = [Pass::new(&color, &draw)];
    assert_eq!(outcome(&read_unwritten), Err(FrameRefusal::SampleUnrendered { pass: 0 }));

    let own_draw = [Item::new(PipelineInfo { format: TargetFormat::Rgba8Unorm, ..sampling }).bindings(&reads)];
    let read_own = [Pass::render_to(target, black(), &[]), Pass::render_to(target, Attachment::new(LoadOp::Load, StoreOp::Store), &own_draw), Pass::new(&color, &[])];
    assert_eq!(outcome(&read_own), Err(FrameRefusal::SampleOwnTarget { pass: 1 }));

    let retarget = [
        Pass::render_to(target, black(), &[]),
        Pass::new(&color, &draw),
        Pass::render_to(target, black(), &[]),
    ];
    assert_eq!(outcome(&retarget), Err(FrameRefusal::RetargetAfterSample { pass: 2 }));
}

#[test]
fn a_discarded_image_is_neither_loaded_nor_sampled() {
    let color = [black()];
    let target = image(7, RenderImageKind::Color);
    let discard = color_attachment(colour(0.0, 0.0, 0.0, 0.0));
    let discard = Attachment::new(discard.load, StoreOp::Discard);
    let first_load = [Pass::render_to(target, Attachment::new(LoadOp::Load, StoreOp::Store), &[]), Pass::new(&color, &[])];
    assert_eq!(outcome(&first_load), Err(FrameRefusal::FirstImageLoad { pass: 0 }));

    let load_after_discard = [
        Pass::render_to(target, discard, &[]),
        Pass::render_to(target, Attachment::new(LoadOp::Load, StoreOp::Store), &[]),
        Pass::new(&color, &[]),
    ];
    assert_eq!(outcome(&load_after_discard), Err(FrameRefusal::LoadAfterDiscard { pass: 1 }));

    let sampling = PipelineInfo { sampled_bindings: 1, ..pipeline(TargetFormat::Bgra8Srgb) };
    let reads = [BindingRef { key: 100, sampled_image: Some(7) }];
    let draw = [Item::new(sampling).bindings(&reads)];
    let sample_after_discard = [Pass::render_to(target, discard, &[]), Pass::new(&color, &draw)];
    assert_eq!(outcome(&sample_after_discard), Err(FrameRefusal::SampleDiscarded { pass: 1 }));
}

#[test]
fn a_frame_touches_at_most_four_render_images() {
    let color = [black()];
    let mut passes: Vec<Pass<'_>> = (0..MAX_FRAME_RENDER_IMAGES as u64)
        .map(|key| Pass::render_to(image(key, RenderImageKind::Color), black(), &[]))
        .collect();
    passes.push(Pass::new(&color, &[]));
    assert_eq!(outcome(&passes), Ok(()));
    passes.insert(0, Pass::render_to(image(99, RenderImageKind::Color), black(), &[]));
    assert_eq!(outcome(&passes), Err(FrameRefusal::TooManyImages { pass: 4 }));
}

#[test]
fn each_item_agrees_with_its_pipeline_and_pass() {
    let color = [black()];
    let depth_only = [Item::new(pipeline(TargetFormat::DepthOnly))];
    assert_eq!(outcome(&[Pass::new(&color, &depth_only)]), Err(FrameRefusal::DepthOnlyOutsideDepthImage { pass: 0 }));

    let wrong_format = [Item::new(pipeline(TargetFormat::Bgra8Srgb))];
    let target = image(3, RenderImageKind::Color);
    assert_eq!(
        outcome(&[Pass::render_to(target, black(), &wrong_format), Pass::new(&color, &[])]),
        Err(FrameRefusal::ImageFormatMismatch { pass: 0 })
    );

    let depthless = [Item::new(pipeline(TargetFormat::Bgra8Srgb))];
    assert_eq!(
        outcome(&[Pass::new(&color, &depthless).depth(depth_clear(1.0))]),
        Err(FrameRefusal::DepthStateMismatch { pass: 0 })
    );

    let mesh = MeshRef { key: 5, vertex_stride: 12 };
    let no_input = [Item::new(pipeline(TargetFormat::Bgra8Srgb)).mesh(mesh)];
    assert_eq!(outcome(&[Pass::new(&color, &no_input)]), Err(FrameRefusal::GeometryMismatch { pass: 0 }));

    let mesh_pipeline = PipelineInfo { vertex_input: true, vertex_stride: 16, ..pipeline(TargetFormat::Bgra8Srgb) };
    let wrong_stride = [Item::new(mesh_pipeline).mesh(mesh)];
    assert_eq!(outcome(&[Pass::new(&color, &wrong_stride)]), Err(FrameRefusal::StrideMismatch { pass: 0 }));

    let pushing = PipelineInfo { push_constant_size: 8, ..pipeline(TargetFormat::Bgra8Srgb) };
    let missing_push = [Item::new(pushing)];
    assert_eq!(outcome(&[Pass::new(&color, &missing_push)]), Err(FrameRefusal::PushPresence { pass: 0 }));
    let short = [0u8; 4];
    let short_push = [Item::new(pushing).push_data(&short)];
    assert_eq!(outcome(&[Pass::new(&color, &short_push)]), Err(FrameRefusal::PushLength { pass: 0 }));
    let exact = [0u8; 8];
    let exact_push = [Item::new(pushing).push_data(&exact)];
    assert_eq!(outcome(&[Pass::new(&color, &exact_push)]), Ok(()));

    let two_slots = PipelineInfo { sampled_bindings: 2, ..pipeline(TargetFormat::Bgra8Srgb) };
    let unbound = [Item::new(two_slots)];
    assert_eq!(outcome(&[Pass::new(&color, &unbound)]), Err(FrameRefusal::BindingPresence { pass: 0 }));
    let one = [BindingRef { key: 1, sampled_image: None }];
    let partial = [Item::new(two_slots).bindings(&one)];
    assert_eq!(outcome(&[Pass::new(&color, &partial)]), Err(FrameRefusal::BindingCount { pass: 0 }));
}

#[test]
fn one_buffer_carries_one_write_per_frame() {
    let color = [black()];
    let instanced = pipeline(TargetFormat::Bgra8Srgb);
    let data = FrameDataRef { buffer: 40, address: 0x1000, len: 64, instances: 4 };
    let same = [Item::new(instanced).frame_data(data), Item::new(instanced).frame_data(data)];
    assert_eq!(outcome(&[Pass::new(&color, &same)]), Ok(()), "pointer-identical data may repeat");
    let other = FrameDataRef { address: 0x2000, ..data };
    let conflicting = [Item::new(instanced).frame_data(data), Item::new(instanced).frame_data(other)];
    assert_eq!(outcome(&[Pass::new(&color, &conflicting)]), Err(FrameRefusal::ConflictingFrameData));
}

#[test]
fn a_frame_keeps_at_most_sixteen_resources_alive() {
    let color = [black()];
    let mesh_pipeline = PipelineInfo { vertex_input: true, vertex_stride: 12, ..pipeline(TargetFormat::Bgra8Srgb) };
    let items: Vec<Item<'_>> = (0..MAX_RETAINED_RESOURCES as u64)
        .map(|key| Item::new(mesh_pipeline).mesh(MeshRef { key, vertex_stride: 12 }))
        .collect();
    assert_eq!(outcome(&[Pass::new(&color, &items)]), Ok(()));
    let mut repeated = items.clone();
    repeated.push(Item::new(mesh_pipeline).mesh(MeshRef { key: 0, vertex_stride: 12 }));
    assert_eq!(outcome(&[Pass::new(&color, &repeated)]), Ok(()), "a repeated mesh costs no slot");
    let mut over = items.clone();
    over.push(Item::new(mesh_pipeline).mesh(MeshRef { key: 99, vertex_stride: 12 }));
    assert_eq!(outcome(&[Pass::new(&color, &over)]), Err(FrameRefusal::TooManyResources));
    assert_eq!(check_retention_bound(&RenderDesc::new(&[Pass::new(&color, &over)])), Err(FrameRefusal::TooManyResources));
}

#[test]
fn the_walk_hands_each_boundary_its_use_pair() {
    let color = [black()];
    let target = image(7, RenderImageKind::Color);
    let sampling = PipelineInfo { sampled_bindings: 1, ..pipeline(TargetFormat::Bgra8Srgb) };
    let reads = [BindingRef { key: 100, sampled_image: Some(7) }];
    let draw = [Item::new(sampling).bindings(&reads)];
    let passes = [
        Pass::render_to(target, black(), &[]),
        Pass::new(&color, &draw).depth(depth_clear(1.0)),
        Pass::new(&color, &[]).depth(depth_clear(1.0)),
    ];
    let mut walk = FrameWalk::new();
    let first = walk.advance_target(0, &passes[0]);
    assert_eq!(first, TargetUses { color: Some((ImageUse::RenderColorFirstUse, ImageUse::ColorAttachment)), depth: None });
    assert!(walk.advance_sampling(0, &passes[0]).is_empty());
    assert!(!walk.surface_used());

    let second = walk.advance_target(1, &passes[1]);
    assert_eq!(
        second,
        TargetUses {
            color: Some((ImageUse::ColorAttachmentFirstUse, ImageUse::ColorAttachment)),
            depth: Some((ImageUse::DepthAttachmentFirstUse, ImageUse::DepthAttachment)),
        }
    );
    let samples = walk.advance_sampling(1, &passes[1]);
    assert_eq!(samples.len(), 1);
    assert_eq!(samples[0].image, 7);
    assert_eq!(samples[0].uses, (ImageUse::ColorAttachment, ImageUse::SampledInPass));
    assert!(walk.surface_used());

    let third = walk.advance_target(2, &passes[2]);
    assert_eq!(
        third,
        TargetUses {
            color: Some((ImageUse::ColorAttachment, ImageUse::ColorAttachment)),
            depth: Some((ImageUse::DepthAttachment, ImageUse::DepthAttachment)),
        }
    );
}

#[test]
fn retention_recognises_every_class_once() {
    let mesh_pipeline = PipelineInfo { vertex_input: true, vertex_stride: 12, sampled_bindings: 2, ..pipeline(TargetFormat::Bgra8Srgb) };
    let bindings = [BindingRef { key: 20, sampled_image: None }, BindingRef { key: 21, sampled_image: Some(3) }];
    let data = FrameDataRef { buffer: 30, address: 0x10, len: 16, instances: 1 };
    let item = Item::new(mesh_pipeline).mesh(MeshRef { key: 10, vertex_stride: 12 }).frame_data(data).bindings(&bindings);
    assert_eq!(
        retained_of(&item),
        vec![Retained::Mesh(10), Retained::Frame(30), Retained::Binding(20), Retained::Binding(21)]
    );
    assert!(retained_of(&Item::new(pipeline(TargetFormat::Bgra8Srgb))).is_empty());

    let held = [Some(Retained::Mesh(10)), Some(Retained::Image(3)), None];
    assert!(already_retained(Retained::Mesh(10), &held));
    assert!(already_retained(Retained::Image(3), &held));
    assert!(!already_retained(Retained::Binding(10), &held), "the class is part of the identity");
    assert!(!already_retained(Retained::Frame(30), &[]));

    let records = [Some(data), Some(data), None, Some(data)];
    assert_eq!(count_matters(&records), 2);
    assert_eq!(count_matters(&[]), 0);

    let mut writes = BlockWrites::new();
    assert!(writes.first_time(30));
    assert!(!writes.first_time(30), "a resource named twice is written once");
    assert!(writes.contains(30));
    assert!(!writes.contains(31));
}

#[test]
fn an_item_list_holds_what_was_pushed_in_order() {
    let a = Item::new(pipeline(TargetFormat::Bgra8Srgb));
    let b = Item::new(PipelineInfo { vertex_count: 6, ..pipeline(TargetFormat::Bgra8Srgb) });
    let mut list: ItemList<'_, 3> = ItemList::new(a);
    assert_eq!(list.len(), 1);
    assert!(!list.is_empty());
    list.push(b);
    list.push_some(None);
    assert_eq!(list.len(), 2);
    list.push_some(Some(a));
    assert_eq!(list.len(), 3);
    let counts: Vec<u32> = list.as_slice().iter().map(|item| item.pipeline.vertex_count).collect();
    assert_eq!(counts, vec![3, 6, 3]);
    let color = [black()];
    assert_eq!(outcome(&[Pass::new(&color, list.as_slice())]), Ok(()));
}
