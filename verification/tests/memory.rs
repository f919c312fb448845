use lum_os_kernel::memory::{
    create_mapping, init, BootInfoFrameAllocator, MapError, MemoryRegion, MemoryRegionKind,
    PageFlags, VGA_FRAME,
};

fn usable(start: u64, end: u64) -> MemoryRegion {
    MemoryRegion { start, end, kind: MemoryRegionKind::Usable }
}

fn reserved(start: u64, end: u64) -> MemoryRegion {
    MemoryRegion { start, end, kind: MemoryRegionKind::Reserved }
}

#[test]
fn k_frames_give_k_allocations_then_none() {
    // Exactly three usable 4KiB-aligned frames.
    let mut fa = BootInfoFrameAllocator::init(vec![usable(0x1000, 0x4000)]);
    assert_eq!(fa.allocate_frame(), Some(0x1000));
    assert_eq!(fa.allocate_frame(), Some(0x2000));
    assert_eq!(fa.allocate_frame(), Some(0x3000));
    assert_eq!(fa.allocate_frame(), None);
    assert_eq!(fa.allocate_frame(), None);
}

#[test]
fn frames_cross_regions_in_map_order() {
    let map = vec![
        usable(0x1000, 0x3000),
        reserved(0x3000, 0x8000),
        usable(0x8000, 0x9000),
    ];
    let mut fa = BootInfoFrameAllocator::init(map);
    assert_eq!(fa.allocate_frame(), Some(0x1000));
    assert_eq!(fa.allocate_frame(), Some(0x2000));
    assert_eq!(fa.allocate_frame(), Some(0x8000));
    assert_eq!(fa.allocate_frame(), None);
}

#[test]
fn reserved_only_map_is_exhausted_at_once() {
    let mut fa = BootInfoFrameAllocator::init(vec![reserved(0, 0x100000)]);
    assert_eq!(fa.allocate_frame(), None);
}

#[test]
fn empty_region_yields_no_frame() {
    let mut fa = BootInfoFrameAllocator::init(vec![usable(0x5000, 0x5000)]);
    assert_eq!(fa.allocate_frame(), None);
}

#[test]
fn unaligned_region_aligns_steps_down() {
    // One step fits between 0x1800 and 0x2800; its address aligns down.
    let mut fa = BootInfoFrameAllocator::init(vec![usable(0x1800, 0x2800)]);
    assert_eq!(fa.allocate_frame(), Some(0x1000));
    assert_eq!(fa.allocate_frame(), None);
}

#[test]
fn frames_never_repeat_within_one_lifetime() {
    let map = vec![
        usable(0x1000, 0x5000),
        reserved(0x5000, 0x10000),
        usable(0x10000, 0x13000),
    ];
    let mut fa = BootInfoFrameAllocator::init(map);
    let mut seen: Vec<u64> = Vec::new();
    while let Some(frame) = fa.allocate_frame() {
        assert!(!seen.contains(&frame), "frame {frame:#x} handed out twice");
        seen.push(frame);
    }
    assert_eq!(seen.len(), 7);
}

#[test]
fn mapper_binds_to_the_active_table() {
    let mapper = init(0xffff_8000_0000_0000, 0x2000);
    assert_eq!(mapper.table_virt(), 0xffff_8000_0000_2000);
    assert_eq!(mapper.mapping_count(), 0);
}

#[test]
fn create_mapping_installs_present_writable_vga_mapping() {
    let mut mapper = init(0, 0x1000);
    let mut fa = BootInfoFrameAllocator::init(vec![usable(0x1000, 0x3000)]);
    let page = 0xdeadbeaf000 & !0xfff;
    assert_eq!(create_mapping(page, &mut mapper, &mut fa), Ok(()));
    assert_eq!(mapper.mapping_count(), 1);
    let m = mapper.mapping_at(0);
    assert_eq!(m.page, page);
    assert_eq!(m.frame, VGA_FRAME);
    assert_eq!(m.flags, PageFlags { present: true, writable: true });
    assert!(mapper.is_mapped(page));
}

#[test]
fn mapping_the_same_page_twice_is_refused() {
    let mut mapper = init(0, 0x1000);
    let mut fa = BootInfoFrameAllocator::init(vec![usable(0x1000, 0x3000)]);
    assert_eq!(create_mapping(0x4000, &mut mapper, &mut fa), Ok(()));
    assert_eq!(
        create_mapping(0x4000, &mut mapper, &mut fa),
        Err(MapError::AlreadyMapped)
    );
    assert_eq!(mapper.mapping_count(), 1);
}

#[test]
fn mapping_with_exhausted_allocator_is_refused() {
    let mut mapper = init(0, 0x1000);
    let mut fa = BootInfoFrameAllocator::init(vec![]);
    assert_eq!(
        create_mapping(0x4000, &mut mapper, &mut fa),
        Err(MapError::FrameExhausted)
    );
    assert_eq!(mapper.mapping_count(), 0);
}

#[test]
fn pages_in_one_table_span_share_its_table() {
    // The allocator holds a single frame: the first mapping spends it on the
    // last-level table, the second page lies in the same span and needs none.
    let mut mapper = init(0, 0x1000);
    let mut fa = BootInfoFrameAllocator::init(vec![usable(0x1000, 0x2000)]);
    assert_eq!(create_mapping(0x4000, &mut mapper, &mut fa), Ok(()));
    assert_eq!(create_mapping(0x5000, &mut mapper, &mut fa), Ok(()));
    assert_eq!(mapper.mapping_count(), 2);
    // A page in a different span needs a new table, and none is left.
    assert_eq!(
        create_mapping(0x40_0000, &mut mapper, &mut fa),
        Err(MapError::FrameExhausted)
    );
}
