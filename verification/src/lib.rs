pub mod gdt;
pub mod interrupts;
pub mod memory;
pub mod vga;

use vstd::prelude::*;

verus! {

/// Status byte reported to an external test harness through the debug-exit
/// port: the two variants must stay observably distinct.
#[derive(Debug, Clone, Copy, PartialEq, Eq, Structural)]
pub enum QemuExitCode {
    Success,
    Failed,
}

impl QemuExitCode {
    /// The raw value written to the debug-exit port for this status.
    pub open spec fn code_spec(self) -> u32 {
        match self {
            QemuExitCode::Success => 0x10,
            QemuExitCode::Failed => 0x11,
        }
    }

    pub fn code(self) -> (r: u32)
        ensures
            r == self.code_spec(),
    {
        match self {
            QemuExitCode::Success => 0x10,
            QemuExitCode::Failed => 0x11,
        }
    }
}

/// Distinct exit statuses are observable as distinct bytes on the debug-exit
/// port.
pub proof fn lemma_exit_codes_distinct(a: QemuExitCode, b: QemuExitCode)
    ensures
        a != b ==> a.code_spec() != b.code_spec(),
{
}

} // verus!
