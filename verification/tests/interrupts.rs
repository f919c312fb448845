use lum_os_kernel::gdt::DOUBLE_FAULT_IST_INDEX;
use lum_os_kernel::interrupts::{
    dispatch_key, handle_scancode, init, timer_interrupt, ChainedPics, DecodedInput, EoiTarget,
    HandlerKind, InterruprIndex, KeyboardDecoder, SlotPolicy, PIC_1_OFFSET, PIC_2_OFFSET,
};
use lum_os_kernel::QemuExitCode;

#[test]
fn exit_codes_are_distinct_bytes() {
    assert_ne!(QemuExitCode::Success.code(), QemuExitCode::Failed.code());
    assert_eq!(QemuExitCode::Success.code(), 0x10);
    assert_eq!(QemuExitCode::Failed.code(), 0x11);
}

#[test]
fn interrupt_lines_map_to_remapped_vectors() {
    assert_eq!(InterruprIndex::Timer.as_u8(), 32);
    assert_eq!(InterruprIndex::Keyboard.as_u8(), 33);
    assert_eq!(InterruprIndex::Timer.as_usize(), 32);
    assert_eq!(InterruprIndex::Keyboard.as_usize(), 33);
}

#[test]
fn dispatch_table_registers_the_five_handlers() {
    let table = init();
    let breakpoint = table.slot(3);
    assert_eq!(breakpoint.policy, SlotPolicy::Recoverable(HandlerKind::Breakpoint));
    assert_eq!(breakpoint.stack_index, None);
    let double_fault = table.slot(8);
    assert_eq!(double_fault.policy, SlotPolicy::Fatal(HandlerKind::DoubleFault));
    assert_eq!(double_fault.stack_index, Some(DOUBLE_FAULT_IST_INDEX));
    let page_fault = table.slot(14);
    assert_eq!(page_fault.policy, SlotPolicy::Fatal(HandlerKind::PageFault));
    assert_eq!(page_fault.stack_index, None);
    assert_eq!(table.slot(32).policy, SlotPolicy::Recoverable(HandlerKind::Timer));
    assert_eq!(table.slot(33).policy, SlotPolicy::Recoverable(HandlerKind::Keyboard));
}

#[test]
fn unregistered_vectors_stay_unhandled() {
    let table = init();
    for v in [0u8, 1, 2, 4, 13, 15, 31, 34, 255] {
        assert_eq!(table.slot(v).policy, SlotPolicy::Unhandled);
        assert_eq!(table.slot(v).stack_index, None);
    }
}

#[test]
fn initialize_masks_all_but_timer_and_keyboard() {
    let mut pics = ChainedPics::new(PIC_1_OFFSET, PIC_2_OFFSET);
    assert_eq!(pics.masks(), (0xff, 0xff));
    pics.initialize();
    assert_eq!(pics.offsets(), (32, 40));
    // Lines 0 (timer) and 1 (keyboard) of the primary are the only ones on.
    assert_eq!(pics.masks(), (0xfc, 0xff));
}

#[test]
fn eoi_goes_to_the_owning_controller() {
    let pics = ChainedPics::new(PIC_1_OFFSET, PIC_2_OFFSET);
    assert_eq!(pics.notify_end_of_interrupt(33), EoiTarget::Primary);
    assert_eq!(pics.notify_end_of_interrupt(32), EoiTarget::Primary);
    assert_eq!(pics.notify_end_of_interrupt(40), EoiTarget::SecondaryThenPrimary);
    assert_eq!(pics.notify_end_of_interrupt(47), EoiTarget::SecondaryThenPrimary);
    assert_eq!(pics.notify_end_of_interrupt(3), EoiTarget::Ignored);
    assert_eq!(pics.notify_end_of_interrupt(48), EoiTarget::Ignored);
    assert!(pics.handles_interrupt(35));
    assert!(!pics.handles_interrupt(48));
}

#[test]
fn dispatch_forwards_unicode_and_drops_raw() {
    assert_eq!(dispatch_key(Some(DecodedInput::Unicode('q'))), Some('q'));
    assert_eq!(dispatch_key(None), None);
}

#[test]
fn scancode_for_lowercase_a_prints_a() {
    let mut kb = KeyboardDecoder::new();
    let (printed, ack) = handle_scancode(&mut kb, 0x1e);
    assert_eq!(printed, Some('a'));
    assert_eq!(ack, 33);
}

#[test]
fn shifted_scancode_prints_capital_a_and_acks_primary_once() {
    let mut kb = KeyboardDecoder::new();
    // Left shift down: no character yet, but still exactly one ack.
    let (printed, ack) = handle_scancode(&mut kb, 0x2a);
    assert_eq!(printed, None);
    assert_eq!(ack, InterruprIndex::Keyboard.as_u8());
    // 'A' down while shift is held.
    let (printed, ack) = handle_scancode(&mut kb, 0x1e);
    assert_eq!(printed, Some('A'));
    assert_eq!(ack, InterruprIndex::Keyboard.as_u8());
    // The single acknowledgement goes to the primary controller.
    let pics = ChainedPics::new(PIC_1_OFFSET, PIC_2_OFFSET);
    assert_eq!(pics.notify_end_of_interrupt(ack), EoiTarget::Primary);
}

#[test]
fn key_release_prints_nothing() {
    let mut kb = KeyboardDecoder::new();
    let _ = handle_scancode(&mut kb, 0x1e);
    let (printed, ack) = handle_scancode(&mut kb, 0x9e);
    assert_eq!(printed, None);
    assert_eq!(ack, 33);
}

#[test]
fn timer_tick_acks_the_timer_vector() {
    assert_eq!(timer_interrupt(), 32);
    assert_eq!(timer_interrupt(), InterruprIndex::Timer.as_u8());
}
