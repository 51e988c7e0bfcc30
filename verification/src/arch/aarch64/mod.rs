use vstd::prelude::*;

pub mod gic;
pub mod paging;
pub mod tables;
pub mod user;

verus! {

pub const NAME: &'static str = "aarch64";
pub const EARLY_SERIAL_BASE: usize = 0x0900_0000;

/// The name of the timer that drives the scheduler.
pub fn timer_source(gic_timer_enabled: bool) -> (r: &'static str)
    ensures
        r == (if gic_timer_enabled { "gic" } else { "poll" }),
{
    if gic_timer_enabled {
        "gic"
    } else {
        "poll"
    }
}

/// The generic timer's reload value for the scheduler's rate: at least one tick.
pub fn timer_interval(frequency: u64, scheduler_hz: u64) -> (r: u64)
    requires
        scheduler_hz > 0,
    ensures
        r == (if frequency / scheduler_hz == 0 { 1 } else { frequency / scheduler_hz }),
{
    let interval = frequency / scheduler_hz;
    if interval == 0 {
        1
    } else {
        interval
    }
}

/// Lazily mapped pages are not offered on this architecture.
pub fn supports_lazy_pages() -> (r: bool)
    ensures
        !r,
{
    false
}

pub fn map_lazy_page(virtual_address: usize) -> (r: bool)
    ensures
        !r,
{
    false
}

/// Memory is identity-mapped: a physical address is its own virtual address.
pub fn physical_to_virtual(physical: u64) -> (r: Option<u64>)
    ensures
        r == Some(physical),
{
    Some(physical)
}

pub fn virtual_to_physical(virtual_address: u64) -> (r: Option<u64>)
    ensures
        r == Some(virtual_address),
{
    Some(virtual_address)
}

/// The firmware's (EL, VBAR, SP_EL0) for runtime calls: the loader's, when it gave a
/// vector base, else what the kernel saved at entry.
pub fn firmware_runtime_context(boot_context: (u8, u64, u64), saved: (u8, u64, u64)) -> (r: (u8, u64, u64))
    ensures
        r == (if boot_context.1 != 0 { boot_context } else { saved }),
{
    if boot_context.1 != 0 {
        boot_context
    } else {
        saved
    }
}

/// Whether a firmware call may proceed with this context: it needs an exception level
/// and a vector base.
pub fn runtime_context_usable(context: (u8, u64, u64)) -> (r: bool)
    ensures
        r == (context.0 != 0 && context.1 != 0),
{
    context.0 != 0 && context.1 != 0
}

/// Whether entering the firmware switches translation tables: both are known and they
/// differ.
pub fn switches_ttbr0(firmware_ttbr0: u64, current_ttbr0: u64) -> (r: bool)
    ensures
        r == (firmware_ttbr0 != 0 && current_ttbr0 != 0 && current_ttbr0 != firmware_ttbr0),
{
    firmware_ttbr0 != 0 && current_ttbr0 != 0 && current_ttbr0 != firmware_ttbr0
}

/// The exception level field of CurrentEL.
pub fn current_el_of(value: u64) -> (r: u8)
    ensures
        r == ((value >> 2u64) & 3) as u8,
{
    ((value >> 2u64) & 3) as u8
}

/// The CPU number from MPIDR_EL1's affinity fields.
pub fn cpu_id_of(mpidr: u64) -> (r: u64)
    ensures
        r == mpidr & 0x00ff_ffff,
{
    mpidr & 0x00ff_ffff
}

} // verus!
