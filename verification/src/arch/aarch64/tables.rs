use vstd::prelude::*;

verus! {

/// What the exception registers of the current level say about the exception taken.
#[derive(Clone, Copy, Debug, PartialEq, Eq, Structural)]
pub struct ExceptionState {
    pub current_el: u8,
    pub syndrome: u64,
    pub fault_address: u64,
    pub return_address: u64,
    pub saved_program_status: u64,
}

/// A fault taken while copying from or to user memory, with where to resume.
#[derive(Clone, Copy, Debug, PartialEq, Eq, Structural)]
pub struct UsercopyFault {
    pub exception: ExceptionState,
    pub recovery_address: u64,
}

/// The exception vectors must be aligned to 2 KiB.
pub fn vectors_aligned(vectors: u64) -> (r: bool)
    ensures
        r == (vectors & 0x7ff == 0),
{
    vectors & 0x7ff == 0
}

/// The exception level whose VBAR receives the vectors: the current one, when it is 1 to 3.
pub fn vector_base_level(current_el: u8) -> (r: Option<u8>)
    ensures
        r == (if 1 <= current_el <= 3 {
            Some(current_el)
        } else {
            None
        }),
{
    if 1 <= current_el && current_el <= 3 {
        Some(current_el)
    } else {
        None
    }
}

/// The exception state at level `current_el` from that level's ESR, FAR, ELR and SPSR, in
/// that order. There are no such registers below EL1: everything reads as zero there.
pub fn exception_state(current_el: u8, registers: (u64, u64, u64, u64)) -> (r: ExceptionState)
    ensures
        r.current_el == current_el,
        1 <= current_el <= 3 ==> (r.syndrome, r.fault_address, r.return_address, r.saved_program_status)
            == registers,
        !(1 <= current_el <= 3) ==> r.syndrome == 0 && r.fault_address == 0 && r.return_address == 0
            && r.saved_program_status == 0,
{
    let (syndrome, fault_address, return_address, saved_program_status) = if 1 <= current_el && current_el <= 3 {
        registers
    } else {
        (0, 0, 0, 0)
    };
    ExceptionState { current_el, syndrome, fault_address, return_address, saved_program_status }
}

/// The last fault taken during a user copy.
#[derive(Clone, Copy, Debug, PartialEq, Eq, Structural)]
pub struct UsercopyLog {
    pub last: Option<UsercopyFault>,
}

impl UsercopyLog {
    pub fn new() -> (r: Self)
        ensures
            r.last is None,
    {
        UsercopyLog { last: None }
    }

    pub fn record_usercopy_fault(&mut self, exception: ExceptionState, recovery_address: u64)
        ensures
            final(self).last == Some(UsercopyFault { exception, recovery_address }),
    {
        self.last = Some(UsercopyFault { exception, recovery_address });
    }

    pub fn last_usercopy_fault(&self) -> (r: Option<UsercopyFault>)
        ensures
            r == self.last,
    {
        self.last
    }
}

} // verus!
