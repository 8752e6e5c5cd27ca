use ash::vk;
use renew_rhi::debug::{ValidationCounters, NO_MESSAGE, RETAINED_MESSAGES, SEVERITY_ERROR, SEVERITY_WARNING};
use renew_rhi::device::HostAllocationStats;
use renew_rhi::host_alloc::{copy_len, plan, realloc_step, AllocLedger, AllocPlan, ReallocStep};

fn word() -> usize {
    core::mem::size_of::<usize>()
}

#[test]
fn the_severity_bits_are_the_vulkan_values() {
    assert_eq!(SEVERITY_ERROR, vk::DebugUtilsMessageSeverityFlagsEXT::ERROR.as_raw());
    assert_eq!(SEVERITY_WARNING, vk::DebugUtilsMessageSeverityFlagsEXT::WARNING.as_raw());
}

#[test]
fn errors_and_warnings_are_tallied_and_retained() {
    let mut counters = ValidationCounters::new();
    counters.record(SEVERITY_ERROR, Some("bad barrier".to_string()));
    counters.record(SEVERITY_WARNING, Some("suspicious usage".to_string()));
    assert_eq!(counters.errors, 1);
    assert_eq!(counters.warnings, 1);
    // Warnings are counted and not retained.
    assert_eq!(counters.first_messages.as_slice(), ["bad barrier"]);
    let report = counters.report();
    assert_eq!(report.errors, 1);
    assert_eq!(report.warnings, 1);
    assert_eq!(report.first_messages, vec!["bad barrier".to_string()]);
}

#[test]
fn retention_caps_while_counters_keep_counting() {
    let mut counters = ValidationCounters::new();
    for _ in 0..(RETAINED_MESSAGES + 4) {
        counters.record(SEVERITY_ERROR, Some("repeated".to_string()));
    }
    assert_eq!(counters.errors, (RETAINED_MESSAGES + 4) as u64);
    assert_eq!(counters.first_messages.len(), RETAINED_MESSAGES, "retention is capped");
}

#[test]
fn a_message_less_record_still_counts_with_a_placeholder() {
    let mut counters = ValidationCounters::new();
    counters.record(SEVERITY_ERROR, None);
    assert_eq!(counters.errors, 1);
    assert_eq!(counters.first_messages.as_slice(), ["(no message)"]);
    assert_eq!(NO_MESSAGE, "(no message)");
}

#[test]
fn info_records_are_neither_counted_nor_kept() {
    let mut counters = ValidationCounters::new();
    counters.record(vk::DebugUtilsMessageSeverityFlagsEXT::INFO.as_raw(), Some("chatter".to_string()));
    counters.record(
        (vk::DebugUtilsMessageSeverityFlagsEXT::ERROR | vk::DebugUtilsMessageSeverityFlagsEXT::WARNING).as_raw(),
        Some("both bits".to_string()),
    );
    assert_eq!(counters.errors, 1, "an error bit makes it an error");
    assert_eq!(counters.warnings, 0, "and only an error");
    assert_eq!(counters.first_messages.as_slice(), ["both bits"]);
}

#[test]
fn plan_rejects_the_unplannable() {
    assert!(plan(16, 3).is_none(), "non-power-of-two align");
    assert!(plan(usize::MAX, 8).is_none(), "overflow");
    assert!(plan(usize::MAX - 1024, 8).is_none(), "unrepresentable layout");
}

#[test]
fn an_unplannable_request_is_refused_not_a_panic() {
    let ledger = AllocLedger::new();
    assert!(plan(16, 3).is_none(), "non-power-of-two align");
    assert!(plan(usize::MAX, 8).is_none(), "overflow");
    assert_eq!(ledger.allocations, 0, "a refusal is not an allocation");
}

#[test]
fn a_zero_size_request_is_served_rather_than_refused() {
    let planned = plan(0, 8).expect("zero size must not read as failure");
    assert!(planned.total > 0, "the header sits below every allocation");
    assert_eq!(planned.total, planned.offset);
    let mut ledger = AllocLedger::new();
    ledger.note_allocation(0);
    ledger.note_allocation(0);
    assert_eq!(ledger.allocations, 2);
    assert_eq!(ledger.bytes_in_use, 0, "zero bytes were asked for, so zero are in use");
    ledger.note_deallocation(0);
    ledger.note_deallocation(0);
    assert_eq!(ledger.deallocations, 2);
    assert_eq!(ledger.bytes_in_use, 0);
}

#[test]
fn the_plan_puts_the_header_below_an_aligned_pointer() {
    let header = 3 * word();
    let small = plan(100, 1).expect("a byte-aligned request");
    assert_eq!(small.align, word(), "the header's own alignment is the floor");
    assert_eq!(small.offset, header);
    assert_eq!(small.total, 100 + header);

    let wide = plan(100, 32).expect("a 32-aligned request");
    assert_eq!(wide, AllocPlan { total: 132, align: 32, offset: 32 });
    assert_eq!(wide.offset % wide.align, 0);

    let mid = plan(10, 16).expect("a 16-aligned request");
    assert_eq!(mid.offset % 16, 0);
    assert!(mid.offset >= header);
    assert!(mid.offset < header + 16);
}

#[test]
fn the_ledger_balances_an_allocation_and_its_free() {
    let mut ledger = AllocLedger::new();
    ledger.note_allocation(100);
    assert_eq!(ledger.bytes_in_use, 100);
    ledger.note_deallocation(100);
    assert_eq!(ledger.allocations, 1);
    assert_eq!(ledger.deallocations, 1);
    assert_eq!(ledger.bytes_in_use, 0);
    assert!(ledger.peak_bytes >= 100);
}

#[test]
fn the_peak_is_the_most_ever_held() {
    let mut ledger = AllocLedger::new();
    ledger.note_allocation(64);
    ledger.note_allocation(32);
    ledger.note_deallocation(64);
    ledger.note_allocation(8);
    assert_eq!(ledger.bytes_in_use, 40);
    assert_eq!(ledger.peak_bytes, 96);
    ledger.note_reallocation();
    assert_eq!(
        ledger.stats(),
        HostAllocationStats { allocations: 3, deallocations: 1, reallocations: 1, bytes_in_use: 40, peak_bytes: 96 }
    );
}

#[test]
fn a_null_original_reallocates_as_an_allocation() {
    assert_eq!(realloc_step(true, 32), ReallocStep::Allocate);
    assert_eq!(realloc_step(true, 0), ReallocStep::Allocate);
}

#[test]
fn a_zero_size_reallocation_releases() {
    assert_eq!(realloc_step(false, 0), ReallocStep::Release);
}

#[test]
fn a_move_copies_what_both_allocations_hold() {
    assert_eq!(realloc_step(false, 64), ReallocStep::Move);
    assert_eq!(copy_len(8, 64), 8, "growing copies what was there");
    assert_eq!(copy_len(64, 8), 8, "shrinking copies what fits");
}

#[test]
fn the_first_error_texts_are_kept_in_order_among_warnings() {
    let mut counters = ValidationCounters::new();
    for i in 0..10 {
        counters.record(SEVERITY_WARNING, Some(format!("warning {i}")));
        counters.record(SEVERITY_ERROR, Some(format!("error {i}")));
    }
    assert_eq!(counters.errors, 10);
    assert_eq!(counters.warnings, 10);
    let kept: Vec<String> = (0..RETAINED_MESSAGES).map(|i| format!("error {i}")).collect();
    assert_eq!(counters.first_messages, kept);
}
