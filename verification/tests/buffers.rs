use renew_rhi::buffer::{checked_slot_layout, frame_data_fits, frame_data_offset, slot_layout, slot_offset, BufferOwner, BufferUsage, MAX_FRAME_SLOTS, SLOT_ALIGN};

#[test]
fn each_slot_region_starts_on_the_larger_alignment() {
    let layout = slot_layout(100, 0);
    assert_eq!(layout.slot_stride, 128, "100 bytes round up to two 64-byte steps");
    assert_eq!(layout.total, 256);
    assert_eq!(slot_offset(layout, 0), 0);
    assert_eq!(slot_offset(layout, 1), 128);
    let uniform = slot_layout(100, 256);
    assert_eq!(uniform.slot_stride, 256, "the adapter's uniform granularity wins when larger");
    assert_eq!(SLOT_ALIGN, 64);
    assert_eq!(MAX_FRAME_SLOTS, 2);
    assert_eq!(BufferUsage::PerFrame, BufferUsage::PerFrame);
}

#[test]
fn an_impossible_layout_is_refused_not_wrapped() {
    assert_eq!(checked_slot_layout(usize::MAX, 0), None);
    assert_eq!(checked_slot_layout(64, 0), Some(slot_layout(64, 0)));
    assert_eq!(checked_slot_layout(65, 16).map(|l| l.slot_stride), Some(128));
}

#[test]
fn a_buffer_belongs_to_the_first_target_that_writes_it() {
    let mut owner = BufferOwner::new();
    assert!(owner.claim(7));
    assert!(owner.claim(7), "the owner may write again");
    assert!(!owner.claim(8), "another target is refused");
    assert!(owner.claim(7));
}

#[test]
fn frame_data_fits_up_to_the_capacity_and_no_further() {
    assert!(frame_data_fits(0, 64));
    assert!(frame_data_fits(64, 64));
    assert!(!frame_data_fits(65, 64));
}

#[test]
fn frame_data_lands_at_the_start_of_its_slot_region() {
    let layout = slot_layout(100, 0);
    assert_eq!(layout.slot_stride, 128);
    assert_eq!(frame_data_offset(layout, 100, 0, 100), 0);
    assert_eq!(frame_data_offset(layout, 100, 1, 40), 128);
}
