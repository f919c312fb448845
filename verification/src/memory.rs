//! Physical frame allocation from the boot memory map, and a model of the
//! page mapper: which virtual pages are mapped to which frames, with an
//! explicit check against silently aliasing an existing mapping.
use vstd::prelude::*;

verus! {

/// Size of one physical frame and one virtual page, in bytes.
pub const FRAME_SIZE: u64 = 4096;

/// Span of virtual addresses covered by one last-level page table.
pub const TABLE_SPAN: u64 = 0x20_0000;

/// The physical frame the mapper installs: the base of the framebuffer.
pub const VGA_FRAME: u64 = 0xb8000;

/// Kind of a boot memory region; only usable regions yield frames.
#[derive(Debug, Clone, Copy, PartialEq, Eq, Structural)]
pub enum MemoryRegionKind {
    Usable,
    Reserved,
}

/// A read-only (start, end, kind) triple from the boot memory map; `end` is
/// exclusive.
#[derive(Debug, Clone, Copy, PartialEq, Eq, Structural)]
pub struct MemoryRegion {
    pub start: u64,
    pub end: u64,
    pub kind: MemoryRegionKind,
}

/// How many frame-sized steps the allocator takes through a region: one per
/// started frame of a usable region, none for a reserved one.
pub open spec fn region_frame_count(r: MemoryRegion) -> int {
    if r.kind == MemoryRegionKind::Usable && r.start < r.end {
        (r.end - 1 - r.start) / (FRAME_SIZE as int) + 1
    } else {
        0
    }
}

/// The frame visited at step `k` of region `r`: the step address aligned
/// down to a frame boundary.
pub open spec fn region_frame(r: MemoryRegion, k: int) -> int {
    let addr = r.start + k * FRAME_SIZE;
    addr - addr % (FRAME_SIZE as int)
}

/// The frames of one region, in step order.
pub open spec fn region_frames(r: MemoryRegion) -> Seq<int> {
    Seq::new(region_frame_count(r) as nat, |k: int| region_frame(r, k))
}

/// Every frame a memory map offers, region by region in map order.
pub open spec fn usable_frames(regions: Seq<MemoryRegion>) -> Seq<int>
    decreases regions.len(),
{
    if regions.len() == 0 {
        Seq::empty()
    } else {
        region_frames(regions[0]) + usable_frames(regions.drop_first())
    }
}

/// A boot memory map is well formed when every usable region starts on a
/// frame boundary and usable regions do not overlap: in map order, each ends
/// at or before the next begins.
pub open spec fn wf_memory_map(regions: Seq<MemoryRegion>) -> bool {
    &&& forall|i: int|
        0 <= i < regions.len() && regions[i].kind == MemoryRegionKind::Usable
            ==> #[trigger] regions[i].start as int % (FRAME_SIZE as int) == 0
    &&& forall|i: int, j: int|
        0 <= i < j < regions.len() && regions[i].kind == MemoryRegionKind::Usable
            && regions[j].kind == MemoryRegionKind::Usable ==> #[trigger] regions[i].end
            <= #[trigger] regions[j].start
}

/// Allocates physical frames from the boot memory map: a monotonically
/// increasing cursor over the sequence of usable frames. There is no
/// deallocation; the cursor never decreases.
pub struct BootInfoFrameAllocator {
    mem_regions: Vec<MemoryRegion>,
    next: usize,
}

impl BootInfoFrameAllocator {
    /// The memory map the allocator draws from.
    pub closed spec fn regions(self) -> Seq<MemoryRegion> {
        self.mem_regions@
    }

    /// The cursor: how many allocation attempts have been made.
    pub closed spec fn cursor(self) -> int {
        self.next as int
    }

    /// A fresh allocator over a memory map, with the cursor at the start.
    pub fn init(mem_regions: Vec<MemoryRegion>) -> (r: Self)
        ensures
            r.regions() == mem_regions@,
            r.cursor() == 0,
    {
        Self { mem_regions, next: 0 }
    }

    /// The next unused usable frame in map order, or `None` once the map is
    /// exhausted. The cursor advances on every call, so no frame is ever
    /// handed out twice.
    pub fn allocate_frame(&mut self) -> (r: Option<u64>)
        requires
            old(self).cursor() < usize::MAX,
        ensures
            final(self).regions() == old(self).regions(),
            final(self).cursor() == old(self).cursor() + 1,
            r is Some <==> old(self).cursor() < usable_frames(old(self).regions()).len(),
            r is Some ==> r->Some_0 as int == usable_frames(old(self).regions())[old(
                self,
            ).cursor()],
    {
        let frame = nth_frame(&self.mem_regions, self.next);
        self.next = self.next + 1;
        frame
    }
}

/// The `n`-th usable frame of a memory map, found by rescanning the regions
/// from the start, or `None` when fewer than `n + 1` frames exist.
fn nth_frame(regions: &Vec<MemoryRegion>, n: usize) -> (r: Option<u64>)
    ensures
        r is Some <==> (n as int) < usable_frames(regions@).len(),
        r is Some ==> r->Some_0 as int == usable_frames(regions@)[n as int],
{
    let ghost all: Seq<int> = usable_frames(regions@);
    let mut i: usize = 0;
    let mut remaining: u64 = n as u64;
    proof {
        assert(all.skip(0) =~= all);
        assert(regions@.skip(0) =~= regions@);
    }
    while i < regions.len()
        invariant
            i <= regions@.len(),
            remaining <= n,
            all == usable_frames(regions@),
            n - remaining <= all.len(),
            all.skip(n - remaining) == usable_frames(regions@.skip(i as int)),
        decreases regions@.len() - i,
    {
        let region = regions[i];
        proof {
            lemma_usable_frames_skip_unfold(regions@, i as int);
        }
        let count: u64 = if matches!(region.kind, MemoryRegionKind::Usable) && region.start
            < region.end {
            let diff = region.end - 1 - region.start;
            proof {
                vstd::arithmetic::div_mod::lemma_div_is_ordered(
                    diff as int,
                    u64::MAX - 1,
                    FRAME_SIZE as int,
                );
            }
            diff / FRAME_SIZE + 1
        } else {
            0
        };
        assert(count as int == region_frame_count(region));
        if remaining < count {
            proof {
                let diff = region.end - 1 - region.start;
                assert(remaining as int <= diff / (FRAME_SIZE as int)) by {
                    assert(count as int == diff / (FRAME_SIZE as int) + 1);
                }
                assert(remaining as int * FRAME_SIZE <= diff) by (nonlinear_arith)
                    requires
                        0 <= remaining as int <= diff / (FRAME_SIZE as int),
                        diff >= 0,
                ;
            }
            let step = remaining * FRAME_SIZE;
            let addr = region.start + step;
            let modulo = addr % FRAME_SIZE;
            let frame = addr - modulo;
            proof {
                assert(frame as int == region_frame(region, remaining as int));
                assert(usable_frames(regions@.skip(i as int))[remaining as int] == region_frames(
                    region,
                )[remaining as int]);
                assert(all.skip(n - remaining).len() > remaining);
                assert(all.len() == (n - remaining) + all.skip(n - remaining).len());
                assert(all.skip(n - remaining)[remaining as int] == all[n as int]);
            }
            return Some(frame);
        }
        proof {
            let rest = usable_frames(regions@.skip(i as int + 1));
            assert(all.skip(n - remaining).len() == all.len() - (n - remaining));
            assert(count as int <= all.skip(n - remaining).len());
            assert(all.skip(n - remaining).skip(count as int) =~= all.skip(
                n - (remaining - count),
            ));
            assert((region_frames(region) + rest).skip(region_frames(region).len() as int)
                =~= rest);
        }
        remaining = remaining - count;
        i = i + 1;
    }
    proof {
        assert(regions@.skip(regions@.len() as int) =~= Seq::<MemoryRegion>::empty());
        assert(usable_frames(Seq::<MemoryRegion>::empty()).len() == 0);
    }
    None
}

/// Splitting the remaining regions off the front: the frames of the regions
/// from `i` on are the frames of region `i` followed by those of the rest.
proof fn lemma_usable_frames_skip_unfold(regions: Seq<MemoryRegion>, i: int)
    requires
        0 <= i < regions.len(),
    ensures
        usable_frames(regions.skip(i)) == region_frames(regions[i]) + usable_frames(
            regions.skip(i + 1),
        ),
{
    assert(regions.skip(i).len() > 0);
    assert(regions.skip(i)[0] == regions[i]);
    assert(regions.skip(i).drop_first() =~= regions.skip(i + 1));
}

/// In a well-formed region, step `k` lands exactly on `start + k` frames:
/// alignment makes the align-down a no-op, so the region's frames are
/// ascending and stay inside the region.
proof fn lemma_region_frames_in_region(r: MemoryRegion, k: int)
    requires
        r.start as int % (FRAME_SIZE as int) == 0,
        0 <= k < region_frame_count(r),
    ensures
        region_frames(r)[k] == r.start + k * FRAME_SIZE,
        r.start <= region_frames(r)[k] < r.end,
{
    let diff = r.end - 1 - r.start;
    assert(k <= diff / (FRAME_SIZE as int));
    assert(k * FRAME_SIZE <= diff) by (nonlinear_arith)
        requires
            0 <= k <= diff / (FRAME_SIZE as int),
            diff >= 0,
    ;
    let addr = r.start + k * FRAME_SIZE;
    assert(addr % (FRAME_SIZE as int) == 0) by (nonlinear_arith)
        requires
            r.start as int % (FRAME_SIZE as int) == 0,
            addr == r.start + k * FRAME_SIZE,
            k >= 0,
            r.start >= 0,
    ;
}

/// Every frame offered by a map whose usable regions all start at or after
/// `bound` lies at or after `bound`.
proof fn lemma_frames_lower_bound(regions: Seq<MemoryRegion>, bound: int)
    requires
        wf_memory_map(regions),
        forall|i: int|
            0 <= i < regions.len() && regions[i].kind == MemoryRegionKind::Usable ==> bound
                <= #[trigger] regions[i].start,
    ensures
        forall|k: int|
            0 <= k < usable_frames(regions).len() ==> bound <= #[trigger] usable_frames(regions)[k],
    decreases regions.len(),
{
    if regions.len() > 0 {
        let r0 = regions[0];
        let rest = regions.drop_first();
        assert(forall|i: int| 0 <= i < rest.len() ==> rest[i] == regions[i + 1]);
        lemma_frames_lower_bound(rest, bound);
        assert forall|k: int|
            0 <= k < usable_frames(regions).len() implies bound <= #[trigger] usable_frames(
            regions,
        )[k] by {
            if k < region_frames(r0).len() {
                lemma_region_frames_in_region(r0, k);
            } else {
                assert(usable_frames(regions)[k] == usable_frames(rest)[k - region_frames(
                    r0,
                ).len()]);
            }
        }
    }
}

/// In a well-formed memory map the usable frames are strictly ascending:
/// later allocation steps always visit strictly higher frames.
pub proof fn lemma_frames_ascending(regions: Seq<MemoryRegion>)
    requires
        wf_memory_map(regions),
    ensures
        forall|a: int, b: int|
            0 <= a < b < usable_frames(regions).len() ==> #[trigger] usable_frames(regions)[a]
                < #[trigger] usable_frames(regions)[b],
    decreases regions.len(),
{
    if regions.len() > 0 {
        let r0 = regions[0];
        let rest = regions.drop_first();
        assert(forall|i: int| 0 <= i < rest.len() ==> rest[i] == regions[i + 1]);
        assert(wf_memory_map(rest));
        lemma_frames_ascending(rest);
        if r0.kind == MemoryRegionKind::Usable {
            assert(forall|i: int|
                0 <= i < rest.len() && rest[i].kind == MemoryRegionKind::Usable ==> r0.end
                    <= #[trigger] rest[i].start);
            lemma_frames_lower_bound(rest, r0.end as int);
        }
        assert forall|a: int, b: int|
            0 <= a < b < usable_frames(regions).len() implies #[trigger] usable_frames(regions)[a]
            < #[trigger] usable_frames(regions)[b] by {
            let m = region_frames(r0).len();
            if b < m {
                lemma_region_frames_in_region(r0, a);
                lemma_region_frames_in_region(r0, b);
                assert(a * FRAME_SIZE < b * FRAME_SIZE) by (nonlinear_arith)
                    requires
                        0 <= a < b,
                ;
            } else if a < m {
                lemma_region_frames_in_region(r0, a);
                assert(usable_frames(regions)[b] == usable_frames(rest)[b - m]);
            } else {
                assert(usable_frames(regions)[a] == usable_frames(rest)[a - m]);
                assert(usable_frames(regions)[b] == usable_frames(rest)[b - m]);
            }
        }
    }
}

/// The frame allocator never returns the same physical frame twice within
/// one allocator lifetime: the cursor only ever increases, and on a
/// well-formed memory map distinct cursor positions hold distinct frames.
pub proof fn lemma_no_frame_repeats(regions: Seq<MemoryRegion>, a: int, b: int)
    requires
        wf_memory_map(regions),
        0 <= a < b < usable_frames(regions).len(),
    ensures
        usable_frames(regions)[a] != usable_frames(regions)[b],
{
    lemma_frames_ascending(regions);
}


/// Flags installed on every mapping the mapper creates.
#[derive(Debug, Clone, Copy, PartialEq, Eq, Structural)]
pub struct PageFlags {
    pub present: bool,
    pub writable: bool,
}

/// One installed virtual-page-to-physical-frame mapping.
#[derive(Debug, Clone, Copy, PartialEq, Eq, Structural)]
pub struct PageMapping {
    pub page: u64,
    pub frame: u64,
    pub flags: PageFlags,
}

/// Why a mapping request was refused. Both cases are fatal to the caller:
/// the kernel cannot continue past a paging failure.
#[derive(Debug, Clone, Copy, PartialEq, Eq, Structural)]
pub enum MapError {
    /// The virtual page already has a mapping; installing another would
    /// silently alias it.
    AlreadyMapped,
    /// A last-level table was needed and the frame allocator was exhausted.
    FrameExhausted,
}

/// Base address of the virtual span served by the last-level table that
/// translates `page`.
pub open spec fn table_base(page: u64) -> int {
    page - page as int % (TABLE_SPAN as int)
}

/// Model of the active translation hierarchy: the virtual address of the
/// top-level table and the set of mappings installed since boot, together
/// with the last-level tables that were built for them.
pub struct PageMapper {
    table_virt: u64,
    mappings: Vec<PageMapping>,
    tables: Vec<u64>,
}

impl PageMapper {
    /// Virtual address of the top-level table, reached through the linear
    /// physical-memory offset.
    pub closed spec fn table_virt_spec(self) -> u64 {
        self.table_virt
    }

    /// The mappings installed so far, oldest first.
    pub closed spec fn mappings(self) -> Seq<PageMapping> {
        self.mappings@
    }

    /// Base addresses of the last-level tables built so far.
    pub closed spec fn tables(self) -> Seq<u64> {
        self.tables@
    }

    /// Whether a virtual page already has a mapping.
    pub open spec fn mapped(self, page: u64) -> bool {
        exists|k: int| 0 <= k < self.mappings().len() && #[trigger] self.mappings()[k].page == page
    }

    /// No virtual page is mapped twice: a new mapping never silently aliases
    /// an existing one.
    pub open spec fn wf(self) -> bool {
        forall|k: int, l: int|
            0 <= k < l < self.mappings().len() ==> #[trigger] self.mappings()[k].page
                != #[trigger] self.mappings()[l].page
    }

    /// The virtual address of the top-level table.
    pub fn table_virt(&self) -> (r: u64)
        ensures
            r == self.table_virt_spec(),
    {
        self.table_virt
    }

    /// How many mappings have been installed.
    pub fn mapping_count(&self) -> (r: usize)
        ensures
            r as int == self.mappings().len(),
    {
        self.mappings.len()
    }

    /// Read back one installed mapping.
    pub fn mapping_at(&self, k: usize) -> (r: PageMapping)
        requires
            k < self.mappings().len(),
        ensures
            r == self.mappings()[k as int],
    {
        self.mappings[k]
    }

    /// Whether `page` already has a mapping.
    pub fn is_mapped(&self, page: u64) -> (r: bool)
        ensures
            r == self.mapped(page),
    {
        let mut k: usize = 0;
        while k < self.mappings.len()
            invariant
                k <= self.mappings@.len(),
                forall|j: int| 0 <= j < k ==> #[trigger] self.mappings@[j].page != page,
            decreases self.mappings@.len() - k,
        {
            if self.mappings[k].page == page {
                proof {
                    assert(self.mappings()[k as int].page == page);
                }
                return true;
            }
            k = k + 1;
        }
        false
    }

    /// Whether the last-level table with base address `base` exists.
    fn has_table(&self, base: u64) -> (r: bool)
        ensures
            r == self.tables@.contains(base),
    {
        let mut k: usize = 0;
        while k < self.tables.len()
            invariant
                k <= self.tables@.len(),
                forall|j: int| 0 <= j < k ==> self.tables@[j] != base,
            decreases self.tables@.len() - k,
        {
            if self.tables[k] == base {
                return true;
            }
            k = k + 1;
        }
        false
    }
}

/// Binds a mapper to the active top-level table: the table's physical
/// address, read from the paging-root register by the caller, becomes
/// reachable at `offset + lv4_phys` through the linear physical-memory
/// mapping. No mapping has been installed through it yet.
pub fn init(offset: u64, lv4_phys: u64) -> (r: PageMapper)
    requires
        offset + lv4_phys <= u64::MAX,
    ensures
        r.table_virt_spec() == offset + lv4_phys,
        r.mappings().len() == 0,
        r.tables().len() == 0,
        r.wf(),
{
    PageMapper { table_virt: offset + lv4_phys, mappings: Vec::new(), tables: Vec::new() }
}

/// Installs a mapping from `page` to the framebuffer frame with
/// present+writable flags. Refused when the page is already mapped; when the
/// last-level table for `page` does not exist yet, one frame is drawn from
/// the allocator to build it, and exhaustion is refused too. The caller
/// flushes the translation cache entry for `page` afterwards.
pub fn create_mapping(page: u64, mapper: &mut PageMapper, fa: &mut BootInfoFrameAllocator) -> (r:
    Result<(), MapError>)
    requires
        old(mapper).wf(),
        old(fa).cursor() < usize::MAX,
    ensures
        final(mapper).wf(),
        final(mapper).table_virt_spec() == old(mapper).table_virt_spec(),
        final(fa).regions() == old(fa).regions(),
        old(mapper).mapped(page) ==> {
            &&& r == Err::<(), MapError>(MapError::AlreadyMapped)
            &&& final(mapper).mappings() == old(mapper).mappings()
            &&& final(mapper).tables() == old(mapper).tables()
            &&& final(fa).cursor() == old(fa).cursor()
        },
        !old(mapper).mapped(page) && old(mapper).tables().contains((table_base(page) as u64))
            ==> {
            &&& r == Ok::<(), MapError>(())
            &&& final(mapper).mappings() == old(mapper).mappings().push(vga_mapping(page))
            &&& final(mapper).tables() == old(mapper).tables()
            &&& final(fa).cursor() == old(fa).cursor()
        },
        !old(mapper).mapped(page) && !old(mapper).tables().contains((table_base(page) as u64))
            && old(fa).cursor() < usable_frames(old(fa).regions()).len() ==> {
            &&& r == Ok::<(), MapError>(())
            &&& final(mapper).mappings() == old(mapper).mappings().push(vga_mapping(page))
            &&& final(mapper).tables() == old(mapper).tables().push((table_base(page) as u64))
            &&& final(fa).cursor() == old(fa).cursor() + 1
        },
        !old(mapper).mapped(page) && !old(mapper).tables().contains((table_base(page) as u64))
            && old(fa).cursor() >= usable_frames(old(fa).regions()).len() ==> {
            &&& r == Err::<(), MapError>(MapError::FrameExhausted)
            &&& final(mapper).mappings() == old(mapper).mappings()
            &&& final(mapper).tables() == old(mapper).tables()
            &&& final(fa).cursor() == old(fa).cursor() + 1
        },
{
    if mapper.is_mapped(page) {
        return Err(MapError::AlreadyMapped);
    }
    let modulo = page % TABLE_SPAN;
    let base = page - modulo;
    assert(base as int == table_base(page));
    if !mapper.has_table(base) {
        match fa.allocate_frame() {
            Some(_table_frame) => {
                mapper.tables.push(base);
            },
            None => {
                return Err(MapError::FrameExhausted);
            },
        }
    }
    let m = PageMapping {
        page,
        frame: VGA_FRAME,
        flags: PageFlags { present: true, writable: true },
    };
    let ghost before = mapper.mappings@;
    mapper.mappings.push(m);
    proof {
        assert(before == old(mapper).mappings());
        assert(mapper.mappings@ == before.push(m));
        assert forall|k: int, l: int|
            0 <= k < l < mapper.mappings@.len() implies #[trigger] mapper.mappings@[k].page
            != #[trigger] mapper.mappings@[l].page by {
            assert(mapper.mappings@[k] == before[k]);
            if l == before.len() as int {
                assert(mapper.mappings@[l] == m);
                assert(old(mapper).mappings()[k].page == before[k].page);
                assert(before[k].page != page);
            } else {
                assert(mapper.mappings@[l] == before[l]);
                assert(old(mapper).mappings()[k] == before[k]);
                assert(old(mapper).mappings()[l] == before[l]);
            }
        }
    }
    Ok(())
}

/// The mapping `create_mapping` installs for `page`.
pub open spec fn vga_mapping(page: u64) -> PageMapping {
    PageMapping { page, frame: VGA_FRAME, flags: PageFlags { present: true, writable: true } }
}

} // verus!
