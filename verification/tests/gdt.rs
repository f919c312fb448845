use lum_os_kernel::gdt::{
    init, SegmentDescriptor, DOUBLE_FAULT_IST_INDEX, FAULT_STACK_SIZE, IST_ENTRIES,
};

#[test]
fn descriptor_set_holds_code_and_task_segments() {
    let set = init(0x10000);
    assert_eq!(set.descriptor_count(), 2);
    assert_eq!(set.descriptor_at(0), SegmentDescriptor::KernelCode);
    assert_eq!(set.descriptor_at(1), SegmentDescriptor::TaskState);
}

#[test]
fn double_fault_stack_sits_atop_the_fixed_stack() {
    let base = 0x10000u64;
    let set = init(base);
    assert_eq!(set.double_fault_stack_top(), Some(base + FAULT_STACK_SIZE));
}

#[test]
fn only_the_double_fault_slot_is_populated() {
    let set = init(0x10000);
    for i in 0..IST_ENTRIES {
        if i != DOUBLE_FAULT_IST_INDEX as usize {
            assert_eq!(set.tss().ist_entry(i), None);
        }
    }
}
