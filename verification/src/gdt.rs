//! Descriptor tables: the segment descriptors and the task-state record
//! whose dedicated fault stack the double-fault handler runs on.
use vstd::prelude::*;

verus! {

/// Index of the dedicated fault stack inside the task-state record's
/// interrupt-stack table.
pub const DOUBLE_FAULT_IST_INDEX: u16 = 0;

/// Number of interrupt-stack-table entries a task-state record holds.
pub const IST_ENTRIES: usize = 7;

/// Size of the dedicated fault stack, in bytes: five frames, fixed at boot.
pub const FAULT_STACK_SIZE: u64 = 5 * 4096;

/// The segment descriptors the kernel loads.
#[derive(Debug, Clone, Copy, PartialEq, Eq, Structural)]
pub enum SegmentDescriptor {
    KernelCode,
    TaskState,
}

/// The task-state record: an interrupt-stack table whose entries optionally
/// hold the top of a dedicated stack.
pub struct TaskStateRecord {
    ist: Vec<Option<u64>>,
}

impl TaskStateRecord {
    /// The interrupt-stack table.
    pub closed spec fn ist_spec(self) -> Seq<Option<u64>> {
        self.ist@
    }

    /// The record covers every interrupt-stack slot.
    pub open spec fn wf(self) -> bool {
        self.ist_spec().len() == IST_ENTRIES
    }

    /// Read one interrupt-stack entry.
    pub fn ist_entry(&self, index: usize) -> (r: Option<u64>)
        requires
            self.wf(),
            index < IST_ENTRIES,
        ensures
            r == self.ist_spec()[index as int],
    {
        self.ist[index]
    }
}

/// The loaded descriptor set: the ordered segment descriptors and the
/// task-state record. Built once at boot, immutable thereafter.
pub struct DescriptorSet {
    descriptors: Vec<SegmentDescriptor>,
    tss: TaskStateRecord,
}

impl DescriptorSet {
    /// The segment descriptors, in table order.
    pub closed spec fn descriptors_spec(self) -> Seq<SegmentDescriptor> {
        self.descriptors@
    }

    /// The task-state record.
    pub closed spec fn tss_spec(self) -> TaskStateRecord {
        self.tss
    }

    pub open spec fn wf(self) -> bool {
        self.tss_spec().wf()
    }

    /// The task-state record.
    pub fn tss(&self) -> (r: &TaskStateRecord)
        ensures
            *r == self.tss_spec(),
    {
        &self.tss
    }

    /// Read one segment descriptor.
    pub fn descriptor_at(&self, index: usize) -> (r: SegmentDescriptor)
        requires
            index < self.descriptors_spec().len(),
        ensures
            r == self.descriptors_spec()[index as int],
    {
        self.descriptors[index]
    }

    /// How many descriptors the set holds.
    pub fn descriptor_count(&self) -> (r: usize)
        ensures
            r as int == self.descriptors_spec().len(),
    {
        self.descriptors.len()
    }

    /// The top of the dedicated double-fault stack.
    pub fn double_fault_stack_top(&self) -> (r: Option<u64>)
        requires
            self.wf(),
        ensures
            r == self.tss_spec().ist_spec()[DOUBLE_FAULT_IST_INDEX as int],
    {
        self.tss.ist_entry(DOUBLE_FAULT_IST_INDEX as usize)
    }
}

/// Builds the descriptor set the kernel loads at boot: a code segment and a
/// task segment, and a task-state record whose only populated
/// interrupt-stack entry is the dedicated double-fault stack. Stacks grow
/// downward, so the entry holds the end of the exclusively owned,
/// fixed-size stack that starts at `fault_stack_base`.
pub fn init(fault_stack_base: u64) -> (r: DescriptorSet)
    requires
        fault_stack_base + FAULT_STACK_SIZE <= u64::MAX,
    ensures
        r.wf(),
        r.descriptors_spec() =~= seq![SegmentDescriptor::KernelCode, SegmentDescriptor::TaskState],
        r.tss_spec().ist_spec()[DOUBLE_FAULT_IST_INDEX as int] == Some(
            (fault_stack_base + FAULT_STACK_SIZE) as u64,
        ),
        forall|i: int|
            0 <= i < IST_ENTRIES && i != DOUBLE_FAULT_IST_INDEX as int ==> r.tss_spec().ist_spec()[i]
                is None,
{
    let mut ist: Vec<Option<u64>> = Vec::new();
    let mut i: usize = 0;
    while i < IST_ENTRIES
        invariant
            i <= IST_ENTRIES,
            ist@.len() == i,
            forall|j: int| 0 <= j < i ==> ist@[j] is None,
        decreases IST_ENTRIES - i,
    {
        ist.push(None);
        i = i + 1;
    }
    ist[DOUBLE_FAULT_IST_INDEX as usize] = Some(fault_stack_base + FAULT_STACK_SIZE);
    let mut descriptors: Vec<SegmentDescriptor> = Vec::new();
    descriptors.push(SegmentDescriptor::KernelCode);
    descriptors.push(SegmentDescriptor::TaskState);
    DescriptorSet { descriptors, tss: TaskStateRecord { ist } }
}

} // verus!
