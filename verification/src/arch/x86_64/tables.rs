use vstd::prelude::*;

verus! {

pub const KERNEL_CODE_SELECTOR: u16 = 0x08;
pub const KERNEL_DATA_SELECTOR: u16 = 0x10;
/// The user data segment, entry 3 of the GDT, at privilege 3.
pub const USER_DATA_SELECTOR: u16 = 0x1b;
pub const USER_CODE_SELECTOR: u16 = 0x23;
pub const TSS_SELECTOR: u16 = 0x28;
pub const TSS_GDT_INDEX: usize = 5;
pub const KERNEL_STACK_SIZE: usize = 0x8_0000;
pub const SYSCALL_STACK_SIZE: usize = 0x8_0000;
/// An interrupt gate, present, for ring 0.
pub const INTERRUPT_GATE: u16 = 0x8e00;
/// An available 64-bit TSS, present.
pub const TSS_TYPE: u64 = 0x89;

/// What the processor pushes on an interrupt.
#[derive(Clone, Copy, Debug, PartialEq, Eq, Structural)]
pub struct InterruptStackFrame {
    pub instruction_pointer: u64,
    pub code_segment: u64,
    pub cpu_flags: u64,
    pub stack_pointer: u64,
    pub stack_segment: u64,
}

/// The global descriptor table before the TSS is installed: null, kernel code and data,
/// user data and code, and two slots for the TSS.
pub fn initial_gdt() -> (r: [u64; 7])
    ensures
        r@ == seq![0u64, 0x00af9a000000ffff, 0x00af92000000ffff, 0x00aff2000000ffff, 0x00affa000000ffff, 0, 0],
{
    [0, 0x00af9a000000ffff, 0x00af92000000ffff, 0x00aff2000000ffff, 0x00affa000000ffff, 0, 0]
}

/// One gate of the interrupt descriptor table.
#[derive(Clone, Copy, Debug, PartialEq, Eq, Structural)]
pub struct IdtEntry {
    pub offset_low: u16,
    pub selector: u16,
    pub options: u16,
    pub offset_mid: u16,
    pub offset_high: u32,
    pub zero: u32,
}

impl IdtEntry {
    /// A gate that is not present.
    pub fn missing() -> (r: Self)
        ensures
            r == (IdtEntry { offset_low: 0, selector: 0, options: 0, offset_mid: 0, offset_high: 0, zero: 0 }),
    {
        IdtEntry { offset_low: 0, selector: 0, options: 0, offset_mid: 0, offset_high: 0, zero: 0 }
    }

    /// The handler address the descriptor holds.
    pub open spec fn handler(self) -> u64 {
        (self.offset_low as u64) | ((self.offset_mid as u64) << 16u64) | ((self.offset_high as u64) << 32u64)
    }

    /// Points the descriptor at `addr`, as a kernel interrupt descriptor.
    pub fn set_addr(&mut self, addr: u64)
        ensures
            final(self).offset_low == addr as u16,
            final(self).selector == KERNEL_CODE_SELECTOR,
            final(self).options == INTERRUPT_GATE,
            final(self).offset_mid == (addr >> 16u64) as u16,
            final(self).offset_high == (addr >> 32u64) as u32,
            final(self).zero == old(self).zero,
            final(self).handler() == addr,
    {
        self.offset_low = addr as u16;
        self.selector = KERNEL_CODE_SELECTOR;
        self.options = INTERRUPT_GATE;
        self.offset_mid = (addr >> 16) as u16;
        self.offset_high = (addr >> 32) as u32;
        let low = self.offset_low;
        let mid = self.offset_mid;
        let high = self.offset_high;
        assert((low as u64) | ((mid as u64) << 16u64) | ((high as u64) << 32u64) == addr) by (bit_vector)
            requires
                low == addr as u16,
                mid == (addr >> 16u64) as u16,
                high == (addr >> 32u64) as u32,
        ;
    }

    /// The handler address of a gate that holds one.
    pub fn handler_address(&self) -> (r: u64)
        ensures
            r == self.handler(),
    {
        (self.offset_low as u64) | ((self.offset_mid as u64) << 16) | ((self.offset_high as u64) << 32)
    }
}

/// The two descriptor-table words of a TSS at `base` with the given `limit`.
pub open spec fn tss_words(base: u64, limit: u64) -> (u64, u64) {
    ((limit & 0xffff) | ((base & 0xffff) << 16u64) | (((base >> 16u64) & 0xff) << 32u64) | (TSS_TYPE << 40u64)
        | (((limit >> 16u64) & 0x0f) << 48u64) | (((base >> 24u64) & 0xff) << 56u64), base >> 32u64)
}

pub fn tss_descriptor(base: u64, limit: u64) -> (r: (u64, u64))
    ensures
        r == tss_words(base, limit),
{
    let low = (limit & 0xffff) | ((base & 0xffff) << 16) | (((base >> 16) & 0xff) << 32) | (TSS_TYPE << 40) | (((
    limit >> 16) & 0x0f) << 48) | (((base >> 24) & 0xff) << 56);
    (low, base >> 32)
}

/// The base address a TSS descriptor holds.
pub open spec fn descriptor_base(low: u64, high: u64) -> u64 {
    ((low >> 16u64) & 0xff_ffff) | (((low >> 56u64) & 0xff) << 24u64) | (high << 32u64)
}

/// The limit a TSS descriptor holds.
pub open spec fn descriptor_limit(low: u64) -> u64 {
    (low & 0xffff) | (((low >> 48u64) & 0x0f) << 16u64)
}

/// A TSS descriptor gives back the base it was built from, and any limit below 2^20.
pub proof fn law_tss_descriptor_roundtrip(base: u64, limit: u64)
    requires
        limit < 0x10_0000,
    ensures
        descriptor_base(tss_words(base, limit).0, tss_words(base, limit).1) == base,
        descriptor_limit(tss_words(base, limit).0) == limit,
        (tss_words(base, limit).0 >> 40u64) & 0xff == TSS_TYPE,
{
    lemma_tss_bits(base, limit);
}

proof fn lemma_tss_bits(base: u64, limit: u64)
    by (bit_vector)
    ensures
        ({
            let low = (limit & 0xffff) | ((base & 0xffff) << 16u64) | (((base >> 16u64) & 0xff) << 32u64) | (0x89u64
                << 40u64) | (((limit >> 16u64) & 0x0f) << 48u64) | (((base >> 24u64) & 0xff) << 56u64);
            &&& ((low >> 16u64) & 0xff_ffff) | (((low >> 56u64) & 0xff) << 24u64) | ((base >> 32u64) << 32u64) == base
            &&& limit < 0x10_0000 ==> (low & 0xffff) | (((low >> 48u64) & 0x0f) << 16u64) == limit
            &&& (low >> 40u64) & 0xff == 0x89
        }),
{
}

/// The handler each interrupt vector is given.
#[derive(Clone, Copy, Debug, PartialEq, Eq, Structural)]
pub enum Handler {
    DivideError,
    Breakpoint,
    InvalidOpcode,
    DoubleFault,
    GeneralProtection,
    PageFault,
    Exception,
    Timer,
    Keyboard,
    Mouse,
    /// A legacy interrupt line other than the timer, keyboard and mouse.
    LegacyIrq(u8),
    Spurious,
}

pub open spec fn spec_handler(vector: u8) -> Handler {
    if vector == 0 {
        Handler::DivideError
    } else if vector == 3 {
        Handler::Breakpoint
    } else if vector == 6 {
        Handler::InvalidOpcode
    } else if vector == 8 {
        Handler::DoubleFault
    } else if vector == 13 {
        Handler::GeneralProtection
    } else if vector == 14 {
        Handler::PageFault
    } else if vector < 32 {
        Handler::Exception
    } else if vector == 32 {
        Handler::Timer
    } else if vector == 33 {
        Handler::Keyboard
    } else if vector == 44 {
        Handler::Mouse
    } else if vector < 48 {
        Handler::LegacyIrq((vector - 32) as u8)
    } else {
        Handler::Spurious
    }
}

/// The handler `load_idt` installs for `vector`: the named exceptions, a generic one for
/// the other CPU exceptions, the timer, keyboard and mouse, the other legacy lines from
/// vector 32, and a spurious handler above.
pub fn idt_handler(vector: u8) -> (r: Handler)
    ensures
        r == spec_handler(vector),
{
    match vector {
        0 => Handler::DivideError,
        3 => Handler::Breakpoint,
        6 => Handler::InvalidOpcode,
        8 => Handler::DoubleFault,
        13 => Handler::GeneralProtection,
        14 => Handler::PageFault,
        32 => Handler::Timer,
        33 => Handler::Keyboard,
        44 => Handler::Mouse,
        _ => if vector < 32 {
            Handler::Exception
        } else if vector < 48 {
            Handler::LegacyIrq(vector - 32)
        } else {
            Handler::Spurious
        },
    }
}

/// The legacy interrupt line whose end of interrupt a handler signals.
pub fn handler_line(handler: Handler) -> (r: Option<u8>)
    ensures
        r == match handler {
            Handler::Keyboard => Some(1u8),
            Handler::Mouse => Some(12u8),
            Handler::LegacyIrq(line) => Some(line),
            _ => None,
        },
{
    match handler {
        Handler::Keyboard => Some(1),
        Handler::Mouse => Some(12),
        Handler::LegacyIrq(line) => Some(line),
        _ => None,
    }
}

/// The top of the kernel stack that starts at `base`.
pub fn kernel_stack_top(base: u64) -> (r: u64)
    requires
        base + KERNEL_STACK_SIZE <= u64::MAX,
    ensures
        r == base + KERNEL_STACK_SIZE,
{
    base + KERNEL_STACK_SIZE as u64
}

/// The top of the system-call stack that starts at `base`.
pub fn syscall_stack_top(base: u64) -> (r: u64)
    requires
        base + SYSCALL_STACK_SIZE <= u64::MAX,
    ensures
        r == base + SYSCALL_STACK_SIZE,
{
    base + SYSCALL_STACK_SIZE as u64
}

} // verus!
