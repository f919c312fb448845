//! Interrupt handling: the vector dispatch table with an explicit failure
//! policy per slot, the chained interrupt-controller state with its
//! acknowledgement rule, and the keyboard handler's decode-and-forward path.
use crate::gdt::DOUBLE_FAULT_IST_INDEX;
use vstd::prelude::*;

verus! {

/// Base vector of the primary interrupt controller after remapping.
pub const PIC_1_OFFSET: u8 = 32;

/// Base vector of the secondary interrupt controller after remapping.
pub const PIC_2_OFFSET: u8 = PIC_1_OFFSET + 8;

/// Vector of the breakpoint exception.
pub const BREAKPOINT_VECTOR: u8 = 3;

/// Vector of the double-fault exception.
pub const DOUBLE_FAULT_VECTOR: u8 = 8;

/// Vector of the page-fault exception.
pub const PAGE_FAULT_VECTOR: u8 = 14;

/// Number of interrupt vectors the table covers.
pub const VECTOR_COUNT: usize = 256;

/// The hardware interrupt lines this kernel services.
#[derive(Debug, Clone, Copy, PartialEq, Eq, Structural)]
pub enum InterruprIndex {
    Timer,
    Keyboard,
}

impl InterruprIndex {
    /// The vector this line is delivered on after remapping.
    pub open spec fn as_u8_spec(self) -> u8 {
        match self {
            InterruprIndex::Timer => PIC_1_OFFSET,
            InterruprIndex::Keyboard => (PIC_1_OFFSET + 1) as u8,
        }
    }

    pub fn as_u8(self) -> (r: u8)
        ensures
            r == self.as_u8_spec(),
    {
        match self {
            InterruprIndex::Timer => PIC_1_OFFSET,
            InterruprIndex::Keyboard => PIC_1_OFFSET + 1,
        }
    }

    pub fn as_usize(self) -> (r: usize)
        ensures
            r == self.as_u8_spec() as usize,
    {
        self.as_u8() as usize
    }
}

/// The handlers this kernel registers.
#[derive(Debug, Clone, Copy, PartialEq, Eq, Structural)]
pub enum HandlerKind {
    Breakpoint,
    PageFault,
    DoubleFault,
    Timer,
    Keyboard,
}

/// A vector's failure policy, an explicit per-handler decision: no handler
/// at all (hardware default behaviour), a handler the kernel resumes after,
/// or a handler that ends in a halt.
#[derive(Debug, Clone, Copy, PartialEq, Eq, Structural)]
pub enum SlotPolicy {
    Unhandled,
    Recoverable(HandlerKind),
    Fatal(HandlerKind),
}

/// One slot of the dispatch table: the policy and, for handlers that must
/// survive a corrupted stack, the index of a dedicated stack.
#[derive(Debug, Clone, Copy, PartialEq, Eq)]
pub struct VectorSlot {
    pub policy: SlotPolicy,
    pub stack_index: Option<u16>,
}

/// The slot of a vector no handler was registered for.
pub open spec fn unhandled_slot() -> VectorSlot {
    VectorSlot { policy: SlotPolicy::Unhandled, stack_index: None }
}

/// The interrupt dispatch table: one slot per vector, immutable once built.
pub struct InterruptTable {
    slots: Vec<VectorSlot>,
}

impl InterruptTable {
    /// The table's slots, indexed by vector.
    pub closed spec fn slots_spec(self) -> Seq<VectorSlot> {
        self.slots@
    }

    /// The table covers every vector.
    pub open spec fn wf(self) -> bool {
        self.slots_spec().len() == VECTOR_COUNT
    }

    /// Read one slot of the table.
    pub fn slot(&self, vector: u8) -> (r: VectorSlot)
        requires
            self.wf(),
        ensures
            r == self.slots_spec()[vector as int],
    {
        self.slots[vector as usize]
    }
}

/// Builds the dispatch table this kernel runs with: breakpoint is logged and
/// resumed, a page fault is logged and halts, a double fault always halts
/// and runs on the dedicated fault stack, and the timer and keyboard lines
/// get their handlers. Every other vector is left to hardware default
/// behaviour.
pub fn init() -> (r: InterruptTable)
    ensures
        r.wf(),
        r.slots_spec()[BREAKPOINT_VECTOR as int] == (VectorSlot {
            policy: SlotPolicy::Recoverable(HandlerKind::Breakpoint),
            stack_index: None,
        }),
        r.slots_spec()[PAGE_FAULT_VECTOR as int] == (VectorSlot {
            policy: SlotPolicy::Fatal(HandlerKind::PageFault),
            stack_index: None,
        }),
        r.slots_spec()[DOUBLE_FAULT_VECTOR as int] == (VectorSlot {
            policy: SlotPolicy::Fatal(HandlerKind::DoubleFault),
            stack_index: Some(DOUBLE_FAULT_IST_INDEX),
        }),
        r.slots_spec()[InterruprIndex::Timer.as_u8_spec() as int] == (VectorSlot {
            policy: SlotPolicy::Recoverable(HandlerKind::Timer),
            stack_index: None,
        }),
        r.slots_spec()[InterruprIndex::Keyboard.as_u8_spec() as int] == (VectorSlot {
            policy: SlotPolicy::Recoverable(HandlerKind::Keyboard),
            stack_index: None,
        }),
        forall|v: int|
            0 <= v < VECTOR_COUNT && v != BREAKPOINT_VECTOR as int && v != PAGE_FAULT_VECTOR as int
                && v != DOUBLE_FAULT_VECTOR as int && v != InterruprIndex::Timer.as_u8_spec() as int
                && v != InterruprIndex::Keyboard.as_u8_spec() as int ==> r.slots_spec()[v]
                == unhandled_slot(),
{
    let mut slots: Vec<VectorSlot> = Vec::new();
    let blank = VectorSlot { policy: SlotPolicy::Unhandled, stack_index: None };
    let mut i: usize = 0;
    while i < VECTOR_COUNT
        invariant
            i <= VECTOR_COUNT,
            blank == unhandled_slot(),
            slots@.len() == i,
            forall|j: int| 0 <= j < i ==> slots@[j] == unhandled_slot(),
        decreases VECTOR_COUNT - i,
    {
        slots.push(blank);
        i = i + 1;
    }
    slots[BREAKPOINT_VECTOR as usize] = VectorSlot {
        policy: SlotPolicy::Recoverable(HandlerKind::Breakpoint),
        stack_index: None,
    };
    slots[PAGE_FAULT_VECTOR as usize] = VectorSlot {
        policy: SlotPolicy::Fatal(HandlerKind::PageFault),
        stack_index: None,
    };
    slots[DOUBLE_FAULT_VECTOR as usize] = VectorSlot {
        policy: SlotPolicy::Fatal(HandlerKind::DoubleFault),
        stack_index: Some(DOUBLE_FAULT_IST_INDEX),
    };
    let timer = InterruprIndex::Timer.as_usize();
    slots[timer] = VectorSlot {
        policy: SlotPolicy::Recoverable(HandlerKind::Timer),
        stack_index: None,
    };
    let keyboard = InterruprIndex::Keyboard.as_usize();
    slots[keyboard] = VectorSlot {
        policy: SlotPolicy::Recoverable(HandlerKind::Keyboard),
        stack_index: None,
    };
    InterruptTable { slots }
}

/// Whether a controller with base vector `offset` owns `vector`: each
/// controller serves eight consecutive vectors from its base.
pub open spec fn pic_handles(offset: u8, vector: u8) -> bool {
    offset <= vector < offset + 8
}

/// The acknowledgements one serviced interrupt requires, in the order they
/// must be sent: an interrupt of the secondary controller is chained through
/// the primary, so the secondary is acknowledged first and the primary
/// always follows; one the controllers do not own needs none.
#[derive(Debug, Clone, Copy, PartialEq, Eq, Structural)]
pub enum EoiTarget {
    Ignored,
    Primary,
    SecondaryThenPrimary,
}

/// State of the two cascaded interrupt controllers: their base vectors and
/// the mask of each, one bit per line, a set bit meaning the line is off.
pub struct ChainedPics {
    offset1: u8,
    offset2: u8,
    mask1: u8,
    mask2: u8,
}

impl ChainedPics {
    /// Base vector of the primary controller.
    pub closed spec fn offset1_spec(self) -> u8 {
        self.offset1
    }

    /// Base vector of the secondary controller.
    pub closed spec fn offset2_spec(self) -> u8 {
        self.offset2
    }

    /// Line mask of the primary controller.
    pub closed spec fn mask1_spec(self) -> u8 {
        self.mask1
    }

    /// Line mask of the secondary controller.
    pub closed spec fn mask2_spec(self) -> u8 {
        self.mask2
    }

    /// A controller pair with the given base vectors. Until `initialize`
    /// programs the hardware, every line is taken as masked.
    pub fn new(offset1: u8, offset2: u8) -> (r: ChainedPics)
        ensures
            r.offset1_spec() == offset1,
            r.offset2_spec() == offset2,
            r.mask1_spec() == 0xffu8,
            r.mask2_spec() == 0xffu8,
    {
        ChainedPics { offset1, offset2, mask1: 0xff, mask2: 0xff }
    }

    /// Remaps both controllers to their base vectors and masks every line
    /// except the timer (line 0) and the keyboard (line 1), both on the
    /// primary controller.
    pub fn initialize(&mut self)
        ensures
            final(self).offset1_spec() == old(self).offset1_spec(),
            final(self).offset2_spec() == old(self).offset2_spec(),
            final(self).mask1_spec() == 0xfcu8,
            final(self).mask2_spec() == 0xffu8,
    {
        self.mask1 = 0xfc;
        self.mask2 = 0xff;
    }

    /// The two base vectors.
    pub fn offsets(&self) -> (r: (u8, u8))
        ensures
            r == (self.offset1_spec(), self.offset2_spec()),
    {
        (self.offset1, self.offset2)
    }

    /// The two line masks.
    pub fn masks(&self) -> (r: (u8, u8))
        ensures
            r == (self.mask1_spec(), self.mask2_spec()),
    {
        (self.mask1, self.mask2)
    }

    /// Whether either controller owns this vector.
    pub fn handles_interrupt(&self, vector: u8) -> (r: bool)
        ensures
            r == (pic_handles(self.offset1_spec(), vector) || pic_handles(
                self.offset2_spec(),
                vector,
            )),
    {
        (vector >= self.offset1 && vector - self.offset1 < 8) || (vector >= self.offset2 && vector
            - self.offset2 < 8)
    }

    /// The acknowledgements `vector` requires.
    pub open spec fn eoi_target_spec(self, vector: u8) -> EoiTarget {
        if pic_handles(self.offset2_spec(), vector) {
            EoiTarget::SecondaryThenPrimary
        } else if pic_handles(self.offset1_spec(), vector) {
            EoiTarget::Primary
        } else {
            EoiTarget::Ignored
        }
    }

    /// Decides which controllers to acknowledge for one serviced interrupt;
    /// the caller sends exactly the end-of-interrupt commands named, in the
    /// order named.
    pub fn notify_end_of_interrupt(&self, vector: u8) -> (r: EoiTarget)
        ensures
            r == self.eoi_target_spec(vector),
    {
        if vector >= self.offset2 && vector - self.offset2 < 8 {
            EoiTarget::SecondaryThenPrimary
        } else if vector >= self.offset1 && vector - self.offset1 < 8 {
            EoiTarget::Primary
        } else {
            EoiTarget::Ignored
        }
    }
}

/// A serviced timer or keyboard interrupt is acknowledged exactly once and
/// to the primary controller: with the standard remapping, both vectors lie
/// in the primary controller's range and outside the secondary's.
pub proof fn lemma_serviced_lines_ack_primary(pics: ChainedPics)
    requires
        pics.offset1_spec() == PIC_1_OFFSET,
        pics.offset2_spec() == PIC_2_OFFSET,
    ensures
        pics.eoi_target_spec(InterruprIndex::Keyboard.as_u8_spec()) == EoiTarget::Primary,
        pics.eoi_target_spec(InterruprIndex::Timer.as_u8_spec()) == EoiTarget::Primary,
{
}


// ---------------------------------------------------------------------------
// Keyboard handling: the stateful scancode decoder comes from the
// pc_keyboard crate; the dispatch decisions around it are verified.
// ---------------------------------------------------------------------------

#[verifier::external_type_specification]
#[verifier::external_body]
pub struct ExKeyEvent(pc_keyboard::KeyEvent);

#[verifier::external_type_specification]
#[verifier::external_body]
pub struct ExDecodedKey(pc_keyboard::DecodedKey);

#[verifier::external_type_specification]
#[verifier::external_body]
pub struct ExKeyCode(pc_keyboard::KeyCode);

#[verifier::external_type_specification]
#[verifier::external_body]
pub struct ExKeyboardError(pc_keyboard::Error);

/// The stateful scancode decoder: pc_keyboard's PS/2 keyboard for scancode
/// set 1 and the US 104-key layout. Its state is opaque; what the handler
/// does with each decode outcome is verified around it.
#[verifier::external_body]
pub struct KeyboardDecoder {
    inner: pc_keyboard::PS2Keyboard<pc_keyboard::layouts::Us104Key, pc_keyboard::ScancodeSet1>,
}

impl KeyboardDecoder {
    /// Relies on pc_keyboard::PS2Keyboard::new: a fresh decoder for scancode
    /// set 1 with the US 104-key layout, leaving Ctrl handling alone.
    #[verifier::external_body]
    pub fn new() -> KeyboardDecoder {
        KeyboardDecoder {
            inner: pc_keyboard::PS2Keyboard::new(
                pc_keyboard::ScancodeSet1::new(),
                pc_keyboard::layouts::Us104Key,
                pc_keyboard::HandleControl::Ignore,
            ),
        }
    }

    /// Relies on pc_keyboard::PS2Keyboard::add_byte: it advances the
    /// stateful scancode decoder by one byte, returning a complete key
    /// event, nothing (mid-sequence), or an error for a malformed sequence;
    /// it never panics.
    #[verifier::external_body]
    fn add_byte(&mut self, byte: u8) -> Result<Option<pc_keyboard::KeyEvent>, pc_keyboard::Error> {
        self.inner.add_byte(byte)
    }

    /// Relies on pc_keyboard::PS2Keyboard::process_keyevent: it folds a key
    /// event into the modifier state and returns the decoded key, if any;
    /// it never panics.
    #[verifier::external_body]
    fn process_keyevent(&mut self, event: pc_keyboard::KeyEvent) -> Option<
        pc_keyboard::DecodedKey,
    > {
        self.inner.process_keyevent(event)
    }
}

/// A decoded key as the dispatch logic reads it: a Unicode character or a
/// raw key code.
pub enum DecodedInput {
    Unicode(char),
    RawKey(pc_keyboard::KeyCode),
}

/// Relies on pc_keyboard::DecodedKey holding either a Unicode character or
/// a raw key code: each variant is moved across unchanged.
#[verifier::external_body]
fn decoded_input(key: pc_keyboard::DecodedKey) -> DecodedInput {
    match key {
        pc_keyboard::DecodedKey::Unicode(c) => DecodedInput::Unicode(c),
        pc_keyboard::DecodedKey::RawKey(k) => DecodedInput::RawKey(k),
    }
}

/// What the keyboard handler forwards to the output driver for one decode
/// outcome: a Unicode character is printed; a raw key, a mid-sequence byte
/// and a malformed sequence are all dropped silently.
pub open spec fn dispatch_key_spec(input: Option<DecodedInput>) -> Option<char> {
    match input {
        Some(DecodedInput::Unicode(c)) => Some(c),
        _ => None,
    }
}

/// The character the handler forwards for one decode outcome.
pub fn dispatch_key(input: Option<DecodedInput>) -> (r: Option<char>)
    ensures
        r == dispatch_key_spec(input),
{
    match input {
        Some(DecodedInput::Unicode(c)) => Some(c),
        Some(DecodedInput::RawKey(_)) => None,
        None => None,
    }
}

/// One keyboard interrupt, after the scancode byte has been read from the
/// keyboard port: feed the byte to the stateful decoder, forward a decoded
/// Unicode character for printing, and drop raw keys and malformed
/// sequences silently. Whatever the decoder returned, the result names the
/// keyboard vector to acknowledge, exactly once, and the forwarded
/// character is exactly the dispatch of the decoder's outcome.
pub fn handle_scancode(kb: &mut KeyboardDecoder, scancode: u8) -> (r: (Option<char>, u8))
    ensures
        r.1 == InterruprIndex::Keyboard.as_u8_spec(),
{
    let printed: Option<char> = match kb.add_byte(scancode) {
        Ok(Some(event)) => {
            match kb.process_keyevent(event) {
                Some(key) => dispatch_key(Some(decoded_input(key))),
                None => None,
            }
        },
        Ok(None) => None,
        Err(_) => None,
    };
    (printed, InterruprIndex::Keyboard.as_u8())
}

/// One timer interrupt: a no-op tick, kept as a future scheduling hook; its
/// only obligation is a single acknowledgement of the timer vector.
pub fn timer_interrupt() -> (r: u8)
    ensures
        r == InterruprIndex::Timer.as_u8_spec(),
{
    InterruprIndex::Timer.as_u8()
}

} // verus!
