use vstd::prelude::*;

pub mod apic;
pub mod paging;
pub mod tables;
pub mod user;
pub mod platform;

verus! {

pub const NAME: &'static str = "x86_64";
pub const EARLY_SERIAL_PORT: u16 = 0x3f8;
pub const PIC_MASTER_COMMAND: u16 = 0x20;
pub const PIC_MASTER_DATA: u16 = 0x21;
pub const PIC_SLAVE_COMMAND: u16 = 0xa0;
pub const PIC_SLAVE_DATA: u16 = 0xa1;
pub const PIC_END_OF_INTERRUPT: u8 = 0x20;
pub const PIT_FREQUENCY: u32 = 1_193_182;

/// The platform reports no fixed timer frequency.
pub fn timer_frequency_hz() -> (r: Option<u64>)
    ensures
        r is None,
{
    None
}

/// The name of the timer that drives the scheduler.
pub fn timer_source(apic_timer_enabled: bool) -> (r: &'static str)
    ensures
        r == (if apic_timer_enabled { "apic" } else { "pit" }),
{
    if apic_timer_enabled {
        "apic"
    } else {
        "pit"
    }
}

/// Lazily mapped pages are available on this architecture.
pub fn supports_lazy_pages() -> (r: bool)
    ensures
        r,
{
    true
}

/// The port writes that end a legacy interrupt on `line`: the slave controller too
/// when the line is on it.
pub fn end_legacy_interrupt(line: u8) -> (r: Vec<(u16, u8)>)
    ensures
        line >= 8 ==> r@ == seq![(PIC_SLAVE_COMMAND, PIC_END_OF_INTERRUPT), (PIC_MASTER_COMMAND, PIC_END_OF_INTERRUPT)],
        line < 8 ==> r@ == seq![(PIC_MASTER_COMMAND, PIC_END_OF_INTERRUPT)],
{
    let mut writes: Vec<(u16, u8)> = Vec::new();
    if line >= 8 {
        writes.push((PIC_SLAVE_COMMAND, PIC_END_OF_INTERRUPT));
    }
    writes.push((PIC_MASTER_COMMAND, PIC_END_OF_INTERRUPT));
    writes
}

/// The port writes that end a timer interrupt: the APIC's end-of-interrupt when the
/// APIC timer runs (no port write), else the master PIC's.
pub fn end_timer_interrupt(apic_timer_enabled: bool) -> (r: Vec<(u16, u8)>)
    ensures
        apic_timer_enabled ==> r@.len() == 0,
        !apic_timer_enabled ==> r@ == seq![(PIC_MASTER_COMMAND, PIC_END_OF_INTERRUPT)],
{
    let mut writes: Vec<(u16, u8)> = Vec::new();
    if !apic_timer_enabled {
        writes.push((PIC_MASTER_COMMAND, PIC_END_OF_INTERRUPT));
    }
    writes
}

/// The PIC masks after unmasking `line` (0 to 15): a slave line also unmasks the
/// cascade line 2 on the master.
pub fn enable_legacy_irq(line: u8, master: u8, slave: u8) -> (r: (u8, u8))
    requires
        line < 16,
    ensures
        line < 8 ==> r == (master & !(1u8 << line), slave),
        line >= 8 ==> r == (master & !(1u8 << 2u8), slave & !(1u8 << (line - 8) as u8)),
{
    if line < 8 {
        return (master & !(1u8 << line), slave);
    }
    let slave_line = line - 8;
    (master & !(1u8 << 2u8), slave & !(1u8 << slave_line))
}

/// The PIC masks after masking `line` (0 to 15).
pub fn disable_legacy_irq(line: u8, master: u8, slave: u8) -> (r: (u8, u8))
    requires
        line < 16,
    ensures
        line < 8 ==> r == (master | (1u8 << line), slave),
        line >= 8 ==> r == (master, slave | (1u8 << (line - 8) as u8)),
{
    if line < 8 {
        return (master | (1u8 << line), slave);
    }
    let slave_line = line - 8;
    (master, slave | (1u8 << slave_line))
}

/// The port writes that move the PICs' vectors to 32 and 40 and cascade the slave on
/// line 2, restoring the masks with the timer and keyboard lines open.
pub fn remap_pic(master: u8, slave: u8) -> (r: Vec<(u16, u8)>)
    ensures
        r@ == seq![
            (PIC_MASTER_COMMAND, 0x11u8),
            (0x80u16, 0u8),
            (PIC_SLAVE_COMMAND, 0x11u8),
            (0x80u16, 0u8),
            (PIC_MASTER_DATA, 0x20u8),
            (0x80u16, 0u8),
            (PIC_SLAVE_DATA, 0x28u8),
            (0x80u16, 0u8),
            (PIC_MASTER_DATA, 0x04u8),
            (0x80u16, 0u8),
            (PIC_SLAVE_DATA, 0x02u8),
            (0x80u16, 0u8),
            (PIC_MASTER_DATA, 0x01u8),
            (0x80u16, 0u8),
            (PIC_SLAVE_DATA, 0x01u8),
            (0x80u16, 0u8),
            (PIC_MASTER_DATA, master & !3u8),
            (PIC_SLAVE_DATA, slave),
        ],
{
    let mut w: Vec<(u16, u8)> = Vec::new();
    w.push((PIC_MASTER_COMMAND, 0x11));
    w.push((0x80, 0));
    w.push((PIC_SLAVE_COMMAND, 0x11));
    w.push((0x80, 0));
    w.push((PIC_MASTER_DATA, 0x20));
    w.push((0x80, 0));
    w.push((PIC_SLAVE_DATA, 0x28));
    w.push((0x80, 0));
    w.push((PIC_MASTER_DATA, 0x04));
    w.push((0x80, 0));
    w.push((PIC_SLAVE_DATA, 0x02));
    w.push((0x80, 0));
    w.push((PIC_MASTER_DATA, 0x01));
    w.push((0x80, 0));
    w.push((PIC_SLAVE_DATA, 0x01));
    w.push((0x80, 0));
    w.push((PIC_MASTER_DATA, master & !3u8));
    w.push((PIC_SLAVE_DATA, slave));
    w
}

/// The PIT divisor for `hz` interrupts a second, at most the counter's range.
pub fn pit_divisor(hz: u16) -> (r: u16)
    ensures
        r == (if PIT_FREQUENCY / (if hz == 0 { 1 } else { hz as u32 }) > u16::MAX {
            u16::MAX
        } else {
            (PIT_FREQUENCY / (if hz == 0 { 1 } else { hz as u32 })) as u16
        }),
{
    let divisor = PIT_FREQUENCY / (if hz == 0 { 1 } else { hz as u32 });
    if divisor > u16::MAX as u32 {
        u16::MAX
    } else {
        divisor as u16
    }
}

/// The PIT programming for `hz`: mode 3 on channel 0, then the divisor low and high.
pub fn init_pit(hz: u16) -> (r: Vec<(u16, u8)>)
    ensures
        r@.len() == 3,
        r@[0] == (0x43u16, 0x36u8),
        r@[1].0 == 0x40 && r@[2].0 == 0x40,
        r@[1].1 as int + r@[2].1 as int * 256 == pit_divisor_value(hz),
{
    let divisor = pit_divisor(hz);
    let mut w: Vec<(u16, u8)> = Vec::new();
    w.push((0x43, 0x36));
    w.push((0x40, (divisor % 256) as u8));
    w.push((0x40, (divisor / 256) as u8));
    w
}

pub open spec fn pit_divisor_value(hz: u16) -> int {
    let d = PIT_FREQUENCY / (if hz == 0 { 1 } else { hz as u32 });
    if d > u16::MAX {
        u16::MAX as int
    } else {
        d as int
    }
}

/// The kernel's direct map of physical memory: `bytes` bytes from physical zero at
/// `DIRECT_MAP_BASE`, once it is set up.
pub const DIRECT_MAP_BASE: u64 = 0xffff_8000_0000_0000;
pub const DIRECT_MAP_LIMIT: u64 = 0x8000_0000_0000;
pub const HUGE_PAGE_BYTES: u64 = 0x20_0000;

#[derive(Clone, Copy, Debug, PartialEq, Eq, Structural)]
pub struct DirectMap {
    pub ready: bool,
    pub bytes: u64,
}

impl DirectMap {
    pub open spec fn wf(&self) -> bool {
        self.bytes <= DIRECT_MAP_LIMIT
    }

    pub open spec fn maps_physical(&self, physical: u64) -> bool {
        self.ready && physical < self.bytes
    }

    /// The mapping size for memory reaching `limit`: rounded up to 2 MiB pages, at most
    /// 128 TiB; `None` when it would be empty or larger.
    pub fn size_for(limit: u64) -> (r: Option<u64>)
        ensures
            match r {
                None => limit + HUGE_PAGE_BYTES - 1 > u64::MAX || (limit + HUGE_PAGE_BYTES - 1) / (HUGE_PAGE_BYTES as int)
                    * HUGE_PAGE_BYTES == 0 || (limit + HUGE_PAGE_BYTES - 1) / (HUGE_PAGE_BYTES as int) * HUGE_PAGE_BYTES
                    > DIRECT_MAP_LIMIT,
                Some(bytes) => bytes == (limit + HUGE_PAGE_BYTES - 1) / (HUGE_PAGE_BYTES as int) * HUGE_PAGE_BYTES
                    && 0 < bytes <= DIRECT_MAP_LIMIT,
            },
    {
        if limit > u64::MAX - (HUGE_PAGE_BYTES - 1) {
            return None;
        }
        let bytes = (limit + (HUGE_PAGE_BYTES - 1)) / HUGE_PAGE_BYTES * HUGE_PAGE_BYTES;
        if bytes == 0 || bytes > DIRECT_MAP_LIMIT {
            return None;
        }
        Some(bytes)
    }

    /// Where physical address `physical` appears in the direct map.
    pub fn physical_to_virtual(&self, physical: u64) -> (r: Option<u64>)
        requires
            self.wf(),
        ensures
            self.maps_physical(physical) ==> r == Some((DIRECT_MAP_BASE + physical) as u64),
            !self.maps_physical(physical) ==> r is None,
    {
        if !self.ready || physical >= self.bytes {
            return None;
        }
        Some(DIRECT_MAP_BASE + physical)
    }

    /// The physical address a direct-map address stands for.
    pub fn virtual_to_physical(&self, virtual_address: u64) -> (r: Option<u64>)
        requires
            self.wf(),
        ensures
            (self.ready && DIRECT_MAP_BASE <= virtual_address && virtual_address - DIRECT_MAP_BASE < self.bytes) ==> r
                == Some((virtual_address - DIRECT_MAP_BASE) as u64),
            !(self.ready && DIRECT_MAP_BASE <= virtual_address && virtual_address - DIRECT_MAP_BASE < self.bytes)
                ==> r is None,
    {
        if !self.ready || virtual_address < DIRECT_MAP_BASE || virtual_address - DIRECT_MAP_BASE >= self.bytes {
            return None;
        }
        Some(virtual_address - DIRECT_MAP_BASE)
    }
}

/// Translating a mapped physical address into the direct map and back gives it again.
pub proof fn law_direct_map_roundtrip(map: DirectMap, physical: u64)
    requires
        map.wf(),
        map.maps_physical(physical),
    ensures
        ({
            let v = (DIRECT_MAP_BASE + physical) as u64;
            &&& map.ready && DIRECT_MAP_BASE <= v && v - DIRECT_MAP_BASE < map.bytes
            &&& (v - DIRECT_MAP_BASE) as u64 == physical
        }),
{
}

} // verus!
