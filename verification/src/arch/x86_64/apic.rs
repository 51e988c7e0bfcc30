use vstd::prelude::*;
use crate::bytes::{spec_le_u32, spec_le_u64, le_u32, le_u64};

verus! {

pub const APIC_BASE_X2APIC: u64 = 0x400;
pub const APIC_BASE_ENABLE: u64 = 0x800;
pub const APIC_BASE_MASK: u64 = 0x000f_ffff_ffff_f000;
pub const TIMER_VECTOR: u32 = 32;
pub const TIMER_MASKED: u32 = 0x1_0000;
pub const TIMER_PERIODIC: u32 = 0x2_0000;
pub const TIMER_DIVIDE_BY_16: u32 = 3;
pub const HPET_CALIBRATION_TICKS_DIVISOR: u64 = 100;
pub const FEMTOSECONDS_PER_SECOND: u64 = 1_000_000_000_000_000;
pub const ACPI_TABLE_MAX: usize = 0x10_0000;

/// What the local APIC reports.
#[derive(Clone, Copy, Debug, PartialEq, Eq, Structural)]
pub struct Status {
    pub present: bool,
    pub x2apic: bool,
    pub x2apic_enabled: bool,
    pub enabled: bool,
    pub software_enabled: bool,
    pub base: u64,
    pub id: u32,
    pub version: u32,
}

/// The timer rates a calibration found and the count that gives the scheduler's rate.
#[derive(Clone, Copy, Debug, PartialEq, Eq, Structural)]
pub struct TimerCalibration {
    pub hpet_hz: u64,
    pub apic_timer_hz: u64,
    pub initial_count: u32,
}

/// The APIC's status from CPUID leaf 1 (ECX, EDX), the APIC base MSR, and the
/// spurious-vector, id and version registers: read as MSRs in x2APIC mode, through the
/// register window otherwise (`None` when that read failed).
pub open spec fn status_of(ecx: u32, edx: u32, msr: u64, x2_registers: (u64, u64, u64), mmio_registers: Option<(u32, u32, u32)>) -> Status {
    let present = edx & 0x200 != 0;
    let x2apic = ecx & 0x20_0000 != 0;
    let msr = if present { msr } else { 0u64 };
    let enabled = present && msr & APIC_BASE_ENABLE != 0;
    let x2apic_enabled = enabled && x2apic && msr & APIC_BASE_X2APIC != 0;
    let base = msr & APIC_BASE_MASK;
    let (software_enabled, id, version) = if x2apic_enabled {
        (x2_registers.0 & 0x100 != 0, x2_registers.1 as u32, (x2_registers.2 as u32) & 0xff)
    } else if enabled {
        match mmio_registers {
            Some((svr, id, version)) => (svr & 0x100 != 0, id >> 24u32, version & 0xff),
            None => (false, 0u32, 0u32),
        }
    } else {
        (false, 0u32, 0u32)
    };
    Status { present, x2apic, x2apic_enabled, enabled, software_enabled, base, id, version }
}

pub fn decode_status(ecx: u32, edx: u32, msr: u64, x2_registers: (u64, u64, u64), mmio_registers: Option<(u32, u32, u32)>) -> (r: Status)
    ensures
        r == status_of(ecx, edx, msr, x2_registers, mmio_registers),
{
    let present = edx & 0x200 != 0;
    let x2apic = ecx & 0x20_0000 != 0;
    let msr = if present { msr } else { 0u64 };
    let enabled = present && msr & APIC_BASE_ENABLE != 0;
    let x2apic_enabled = enabled && x2apic && msr & APIC_BASE_X2APIC != 0;
    let base = msr & APIC_BASE_MASK;
    let (software_enabled, id, version) = if x2apic_enabled {
        (x2_registers.0 & 0x100 != 0, x2_registers.1 as u32, (x2_registers.2 as u32) & 0xff)
    } else if enabled {
        match mmio_registers {
            Some((svr, id, version)) => (svr & 0x100 != 0, id >> 24u32, version & 0xff),
            None => (false, 0u32, 0u32),
        }
    } else {
        (false, 0u32, 0u32)
    };
    Status { present, x2apic, x2apic_enabled, enabled, software_enabled, base, id, version }
}

/// The timer count for `scheduler_hz` interrupts a second, kept within 1 and the
/// counter's range.
pub open spec fn initial_count_of(apic_timer_hz: u64, scheduler_hz: u64) -> u32 {
    let count = apic_timer_hz / (if scheduler_hz == 0 { 1 } else { scheduler_hz });
    if count < 1 {
        1
    } else if count > u32::MAX {
        u32::MAX
    } else {
        count as u32
    }
}

pub fn timer_initial_count(apic_timer_hz: u64, scheduler_hz: u64) -> (r: u32)
    ensures
        r == initial_count_of(apic_timer_hz, scheduler_hz),
{
    let count = apic_timer_hz / (if scheduler_hz == 0 { 1 } else { scheduler_hz });
    if count < 1 {
        1
    } else if count > u32::MAX as u64 {
        u32::MAX
    } else {
        count as u32
    }
}

/// The HPET's frequency from its capabilities register: the counter period in
/// femtoseconds is the upper half.
pub fn hpet_frequency(capabilities: u64) -> (r: Option<u64>)
    ensures
        capabilities >> 32u64 == 0 ==> r is None,
        capabilities >> 32u64 != 0 ==> r == (if FEMTOSECONDS_PER_SECOND / (capabilities >> 32u64) == 0 {
            None
        } else {
            Some(FEMTOSECONDS_PER_SECOND / (capabilities >> 32u64))
        }),
{
    let period = capabilities >> 32u64;
    if period == 0 {
        return None;
    }
    let frequency = FEMTOSECONDS_PER_SECOND / period;
    if frequency == 0 {
        None
    } else {
        Some(frequency)
    }
}

/// The HPET ticks to calibrate over: a hundredth of a second, at least one.
pub fn calibration_period(hpet_hz: u64) -> (r: u64)
    ensures
        r == (if hpet_hz / HPET_CALIBRATION_TICKS_DIVISOR == 0 { 1 } else { hpet_hz / HPET_CALIBRATION_TICKS_DIVISOR }),
{
    let period = hpet_hz / HPET_CALIBRATION_TICKS_DIVISOR;
    if period == 0 {
        1
    } else {
        period
    }
}

/// The calibration from one measurement: the HPET advanced `hpet_elapsed` ticks while
/// the APIC timer counted down `apic_elapsed`; `None` when the HPET did not cover the
/// period, the APIC timer did not move, or the rate overflows.
pub fn calibrate(hpet_hz: u64, period: u64, hpet_elapsed: u64, apic_elapsed: u64, scheduler_hz: u64) -> (r: Option<TimerCalibration>)
    ensures
        (hpet_elapsed < period || apic_elapsed == 0 || apic_elapsed * hpet_hz > u64::MAX) ==> r is None,
        !(hpet_elapsed < period || apic_elapsed == 0 || apic_elapsed * hpet_hz > u64::MAX) && hpet_elapsed != 0 ==> r == Some(
            TimerCalibration {
                hpet_hz,
                apic_timer_hz: ((apic_elapsed * hpet_hz) as u64 / hpet_elapsed) as u64,
                initial_count: initial_count_of(((apic_elapsed * hpet_hz) as u64 / hpet_elapsed) as u64, scheduler_hz),
            },
        ),
{
    if hpet_elapsed < period || apic_elapsed == 0 {
        return None;
    }
    let product = match apic_elapsed.checked_mul(hpet_hz) {
        Some(p) => p,
        None => return None,
    };
    if hpet_elapsed == 0 {
        return None;
    }
    let apic_timer_hz = product / hpet_elapsed;
    Some(TimerCalibration { hpet_hz, apic_timer_hz, initial_count: timer_initial_count(apic_timer_hz, scheduler_hz) })
}

/// The APIC timer's state: calibrated (with its numbers) and running.
#[derive(Clone, Copy, Debug, PartialEq, Eq, Structural)]
pub struct TimerState {
    pub ready: bool,
    pub enabled: bool,
    pub calibration: TimerCalibration,
}

impl TimerState {
    pub fn new() -> (r: Self)
        ensures
            !r.ready && !r.enabled,
            r.calibration == (TimerCalibration { hpet_hz: 0, apic_timer_hz: 0, initial_count: 0 }),
    {
        TimerState { ready: false, enabled: false, calibration: TimerCalibration { hpet_hz: 0, apic_timer_hz: 0, initial_count: 0 } }
    }

    /// Records a calibration attempt: the timer is stopped, and ready only when it succeeded.
    pub fn prepared(&mut self, result: Option<TimerCalibration>)
        ensures
            !final(self).enabled,
            final(self).ready == (result is Some),
            result matches Some(c) ==> final(self).calibration == c,
            result is None ==> final(self).calibration == (TimerCalibration { hpet_hz: 0, apic_timer_hz: 0, initial_count: 0 }),
    {
        self.enabled = false;
        match result {
            Some(c) => {
                self.calibration = c;
                self.ready = true;
            },
            None => {
                self.calibration = TimerCalibration { hpet_hz: 0, apic_timer_hz: 0, initial_count: 0 };
                self.ready = false;
            },
        }
    }

    /// Whether the timer may be started: it must be calibrated with a non-zero count.
    pub fn can_enable(&self) -> (r: bool)
        ensures
            r == (self.ready && self.calibration.initial_count != 0),
    {
        self.ready && self.calibration.initial_count != 0
    }

    /// Records that the periodic timer was started.
    pub fn started(&mut self)
        requires
            old(self).ready && old(self).calibration.initial_count != 0,
        ensures
            *final(self) == (TimerState { enabled: true, ..*old(self) }),
    {
        self.enabled = true;
    }

    pub fn timer_enabled(&self) -> (r: bool)
        ensures
            r == self.enabled,
    {
        self.enabled
    }

    pub fn timer_calibration(&self) -> (r: Option<TimerCalibration>)
        ensures
            r == (if self.ready { Some(self.calibration) } else { None }),
    {
        if self.ready {
            Some(self.calibration)
        } else {
            None
        }
    }
}

pub const APIC_LVT_TIMER: usize = 0x320;
pub const APIC_TIMER_INITIAL: usize = 0x380;
pub const APIC_TIMER_CURRENT: usize = 0x390;
pub const APIC_TIMER_DIVIDE: usize = 0x3e0;
pub const HPET_GENERAL_CONFIGURATION: usize = 0x010;
pub const HPET_MAIN_COUNTER: usize = 0x0f0;
pub const HPET_ENABLE: u64 = 1;
pub const HPET_CALIBRATION_SPINS: u32 = 10_000_000;

/// Access to the local APIC's registers and the HPET's, as calibration needs them.
pub trait TimerHardware {
    fn apic_read(&self, register: usize) -> Option<u32>;

    fn apic_write(&mut self, register: usize, value: u32) -> bool;

    fn hpet_read(&self, offset: usize) -> Option<u64>;

    fn hpet_write(&mut self, offset: usize, value: u64) -> bool;
}

/// Calibrates the APIC timer against the HPET: with the HPET stopped and zeroed, the
/// timer is set to count down from its maximum (masked, divided by 16), the HPET started,
/// and both read before and after the HPET covers `calibration_period` ticks (within a
/// bounded number of reads); the timer is stopped again and the rates compared. The state
/// is reset first and records the outcome. `None` when the APIC is not enabled in hardware
/// and software, there is no HPET with a usable period, an access fails, or the measurement
/// is refused by `calibrate`.
pub fn prepare_timer<H: TimerHardware>(
    state: &mut TimerState,
    hardware: &mut H,
    status: Status,
    hpet_capabilities: Option<u64>,
    scheduler_hz: u64,
) -> (r: Option<TimerCalibration>)
    ensures
        !final(state).enabled,
        final(state).ready == (r is Some),
        r matches Some(c) ==> final(state).calibration == c,
        !status.enabled || !status.software_enabled ==> r is None,
        r matches Some(c) ==> hpet_capabilities matches Some(caps) && status.enabled && status.software_enabled
            && caps >> 32u64 != 0 && c.hpet_hz == FEMTOSECONDS_PER_SECOND / (caps >> 32u64)
            && c.initial_count == initial_count_of(c.apic_timer_hz, scheduler_hz),
{
    let result = measure_timer(hardware, status, hpet_capabilities, scheduler_hz);
    state.prepared(result);
    result
}

fn measure_timer<H: TimerHardware>(
    hardware: &mut H,
    status: Status,
    hpet_capabilities: Option<u64>,
    scheduler_hz: u64,
) -> (r: Option<TimerCalibration>)
    ensures
        !status.enabled || !status.software_enabled ==> r is None,
        r matches Some(c) ==> hpet_capabilities matches Some(caps) && status.enabled && status.software_enabled
            && caps >> 32u64 != 0 && c.hpet_hz == FEMTOSECONDS_PER_SECOND / (caps >> 32u64)
            && c.initial_count == initial_count_of(c.apic_timer_hz, scheduler_hz),
{
    if !status.enabled || !status.software_enabled {
        return None;
    }
    let hpet_hz = match hpet_capabilities {
        Some(caps) => match hpet_frequency(caps) {
            Some(hz) => hz,
            None => return None,
        },
        None => return None,
    };
    let period = calibration_period(hpet_hz);
    let config = match hardware.hpet_read(HPET_GENERAL_CONFIGURATION) {
        Some(c) => c,
        None => return None,
    };
    if !hardware.hpet_write(HPET_GENERAL_CONFIGURATION, config & !HPET_ENABLE) || !hardware.hpet_write(
        HPET_MAIN_COUNTER,
        0,
    ) {
        return None;
    }
    if !hardware.apic_write(APIC_TIMER_DIVIDE, TIMER_DIVIDE_BY_16) || !hardware.apic_write(
        APIC_LVT_TIMER,
        TIMER_VECTOR | TIMER_MASKED,
    ) || !hardware.apic_write(APIC_TIMER_INITIAL, u32::MAX) || !hardware.hpet_write(
        HPET_GENERAL_CONFIGURATION,
        config | HPET_ENABLE,
    ) {
        return None;
    }
    let hpet_start = match hardware.hpet_read(HPET_MAIN_COUNTER) {
        Some(v) => v,
        None => return None,
    };
    let apic_start = match hardware.apic_read(APIC_TIMER_CURRENT) {
        Some(v) => v as u64,
        None => return None,
    };
    let mut hpet_end = hpet_start;
    let mut spins: u32 = 0;
    while hpet_end.wrapping_sub(hpet_start) < period && spins < HPET_CALIBRATION_SPINS
        invariant
            spins <= HPET_CALIBRATION_SPINS,
        decreases HPET_CALIBRATION_SPINS - spins,
    {
        hpet_end = match hardware.hpet_read(HPET_MAIN_COUNTER) {
            Some(v) => v,
            None => return None,
        };
        spins = spins + 1;
    }
    let apic_end = match hardware.apic_read(APIC_TIMER_CURRENT) {
        Some(v) => v as u64,
        None => return None,
    };
    let _ = hardware.hpet_write(HPET_GENERAL_CONFIGURATION, config & !HPET_ENABLE);
    let hpet_elapsed = hpet_end.wrapping_sub(hpet_start);
    let apic_elapsed = apic_start.wrapping_sub(apic_end);
    let calibration = calibrate(hpet_hz, period, hpet_elapsed, apic_elapsed, scheduler_hz);
    match calibration {
        None => {
            if hpet_elapsed < period || apic_elapsed == 0 {
                let _ = hardware.apic_write(APIC_TIMER_INITIAL, 0);
            }
            None
        },
        Some(c) => {
            if !hardware.apic_write(APIC_TIMER_INITIAL, 0) {
                return None;
            }
            Some(c)
        },
    }
}

/// The register-window index of an APIC register in x2APIC mode.
pub fn x2apic_msr(register: usize) -> (r: u32)
    requires
        register < 0x10000,
    ensures
        r == 0x800 + register / 0x10,
{
    (0x800 + register / 0x10) as u32
}

// ---------------------------------------------------------------------------
// Finding the HPET through ACPI, in an image of physical memory from address zero

/// The wrapping sum of `n` bytes from `at`.
pub open spec fn byte_sum(mem: Seq<u8>, at: int, n: nat) -> u8
    decreases n,
{
    if n == 0 {
        0
    } else {
        ((byte_sum(mem, at, (n - 1) as nat) + mem[at + n - 1]) % 256) as u8
    }
}

/// The `n` bytes at `at` lie in the image and sum to zero.
pub open spec fn checksum_ok(mem: Seq<u8>, at: int, n: int) -> bool {
    0 <= at && 0 <= n && at + n <= mem.len() && byte_sum(mem, at, n as nat) == 0
}

/// The bytes at `at` are `signature`.
pub open spec fn signature_at(mem: Seq<u8>, at: int, signature: Seq<u8>) -> bool {
    0 <= at && at + signature.len() <= mem.len() && mem.subrange(at, at + signature.len() as int) == signature
}

/// An ACPI table with `signature` at `at`: its length from 36 bytes to 1 MiB, and its
/// checksum.
pub open spec fn table_ok(mem: Seq<u8>, at: int, signature: Seq<u8>) -> bool {
    &&& signature_at(mem, at, signature)
    &&& at + 8 <= mem.len()
    &&& 36 <= spec_le_u32(mem, at + 4) <= ACPI_TABLE_MAX
    &&& checksum_ok(mem, at, spec_le_u32(mem, at + 4))
}

pub open spec fn sig_rsdp() -> Seq<u8> {
    seq![82u8, 83u8, 68u8, 32u8, 80u8, 84u8, 82u8, 32u8]
}

pub open spec fn sig_xsdt() -> Seq<u8> {
    seq![88u8, 83u8, 68u8, 84u8]
}

pub open spec fn sig_rsdt() -> Seq<u8> {
    seq![82u8, 83u8, 68u8, 84u8]
}

pub open spec fn sig_hpet() -> Seq<u8> {
    seq![72u8, 80u8, 69u8, 84u8]
}

/// The HPET base the entries `index..count` of a root table at `root` name: the first
/// valid HPET table in memory space with a non-zero base.
pub open spec fn hpet_from_entries(mem: Seq<u8>, root: int, entry_size: int, count: int, index: int) -> Option<u64>
    decreases count - index,
{
    if index >= count || index < 0 {
        None
    } else {
        let entry = root + 36 + index * entry_size;
        let address = if entry_size == 8 { spec_le_u64(mem, entry) } else { spec_le_u32(mem, entry) };
        if table_ok(mem, address, sig_hpet()) && spec_le_u32(mem, address + 4) >= 56 && mem[address + 40] == 0
            && spec_le_u64(mem, address + 44) != 0 {
            Some(spec_le_u64(mem, address + 44) as u64)
        } else {
            hpet_from_entries(mem, root, entry_size, count, index + 1)
        }
    }
}

/// The HPET base found from the RSDP at `rsdp`: through the XSDT for a revision-2 RSDP
/// whose extended part checks out, through the RSDT otherwise.
pub open spec fn hpet_base_of(mem: Seq<u8>, rsdp: int) -> Option<u64> {
    if !signature_at(mem, rsdp, sig_rsdp()) || !checksum_ok(mem, rsdp, 20) {
        None
    } else {
        let extended = mem[rsdp + 15] >= 2 && rsdp + 36 <= mem.len() && spec_le_u32(mem, rsdp + 20) >= 36
            && checksum_ok(mem, rsdp, 36);
        let root = if extended { spec_le_u64(mem, rsdp + 24) } else { spec_le_u32(mem, rsdp + 16) };
        let entry_size = if extended { 8int } else { 4int };
        if root == 0 || !table_ok(mem, root, if extended { sig_xsdt() } else { sig_rsdt() }) {
            None
        } else {
            hpet_from_entries(mem, root, entry_size, (spec_le_u32(mem, root + 4) - 36) / entry_size, 0)
        }
    }
}

fn sum_bytes(mem: &[u8], at: usize, n: usize) -> (r: u8)
    requires
        at + n <= mem@.len(),
    ensures
        r == byte_sum(mem@, at as int, n as nat),
{
    let _len = mem.len();
    let mut sum: u8 = 0;
    let mut k: usize = 0;
    while k < n
        invariant
            k <= n,
            mem@.len() <= usize::MAX,
            at + n <= mem@.len(),
            sum == byte_sum(mem@, at as int, k as nat),
        decreases n - k,
    {
        sum = sum.wrapping_add(mem[at + k]);
        k = k + 1;
    }
    sum
}

fn checksum(mem: &[u8], at: usize, n: usize) -> (r: bool)
    ensures
        r == checksum_ok(mem@, at as int, n as int),
{
    if at > mem.len() || n > mem.len() - at {
        return false;
    }
    sum_bytes(mem, at, n) == 0
}

fn signature(mem: &[u8], at: usize, expected: &[u8]) -> (r: bool)
    ensures
        r == signature_at(mem@, at as int, expected@),
{
    if at > mem.len() || expected.len() > mem.len() - at {
        return false;
    }
    let _len = mem.len();
    let mut k: usize = 0;
    while k < expected.len()
        invariant
            k <= expected@.len(),
            mem@.len() <= usize::MAX,
            at + expected@.len() <= mem@.len(),
            forall|j: int| 0 <= j < k ==> mem@[at + j] == expected@[j],
        decreases expected@.len() - k,
    {
        if mem[at + k] != expected[k] {
            assert(mem@.subrange(at as int, at + expected@.len())[k as int] != expected@[k as int]);
            return false;
        }
        k = k + 1;
    }
    assert(mem@.subrange(at as int, at + expected@.len()) =~= expected@);
    true
}

fn table(mem: &[u8], at: usize, expected: &[u8]) -> (r: bool)
    ensures
        r == table_ok(mem@, at as int, expected@),
{
    if !signature(mem, at, expected) {
        return false;
    }
    if at > mem.len() || mem.len() - at < 8 {
        return false;
    }
    let length = le_u32(mem, at + 4) as usize;
    if length < 36 || length > ACPI_TABLE_MAX {
        return false;
    }
    checksum(mem, at, length)
}

fn sig(a: u8, b: u8, c: u8, d: u8) -> (r: Vec<u8>)
    ensures
        r@ == seq![a, b, c, d],
{
    let mut v: Vec<u8> = Vec::new();
    v.push(a);
    v.push(b);
    v.push(c);
    v.push(d);
    v
}

/// Finds the HPET's register base from the RSDP, in an image of physical memory;
/// tables that reach past the image do not check out.
pub fn hpet_base_from_rsdp(mem: &[u8], rsdp: usize) -> (r: Option<u64>)
    ensures
        r == hpet_base_of(mem@, rsdp as int),
{
    let mut rsdp_sig = sig(82, 83, 68, 32);
    rsdp_sig.push(80);
    rsdp_sig.push(84);
    rsdp_sig.push(82);
    rsdp_sig.push(32);
    assert(rsdp_sig@ =~= sig_rsdp());
    let _len = mem.len();
    if !signature(mem, rsdp, rsdp_sig.as_slice()) || !checksum(mem, rsdp, 20) {
        return None;
    }
    let extended = mem[rsdp + 15] >= 2 && mem.len() - rsdp >= 36 && le_u32(mem, rsdp + 20) >= 36 && checksum(mem, rsdp, 36);
    let root_value: u64 = if extended { le_u64(mem, rsdp + 24) } else { le_u32(mem, rsdp + 16) as u64 };
    let entry_size: usize = if extended { 8 } else { 4 };
    let root_sig = if extended { sig(88, 83, 68, 84) } else { sig(82, 83, 68, 84) };
    if root_value == 0 || root_value > usize::MAX as u64 {
        return None;
    }
    let root = root_value as usize;
    if !table(mem, root, root_sig.as_slice()) {
        return None;
    }
    let length = le_u32(mem, root + 4) as usize;
    let count = (length - 36) / entry_size;
    let hpet_sig = sig(72, 80, 69, 84);
    let mut index: usize = 0;
    while index < count
        invariant
            index <= count,
            count == (length - 36) / (entry_size as int),
            entry_size == 4 || entry_size == 8,
            36 <= length <= ACPI_TABLE_MAX,
            root + length <= mem@.len(),
            mem@.len() <= usize::MAX,
            hpet_sig@ == sig_hpet(),
            hpet_base_of(mem@, rsdp as int) == hpet_from_entries(mem@, root as int, entry_size as int, count as int, index as int),
        decreases count - index,
    {
        let entry = root + 36 + index * entry_size;
        proof {
            assert(36 + index * entry_size + entry_size <= length) by (nonlinear_arith)
                requires
                    index < count,
                    count == (length - 36) / (entry_size as int),
                    entry_size > 0,
                    length >= 36,
            ;
        }
        let address_value: u64 = if entry_size == 8 { le_u64(mem, entry) } else { le_u32(mem, entry) as u64 };
        if address_value <= usize::MAX as u64 {
            let address = address_value as usize;
            if table(mem, address, hpet_sig.as_slice()) {
                let table_length = le_u32(mem, address + 4);
                if table_length >= 56 && mem[address + 40] == 0 {
                    let base = le_u64(mem, address + 44);
                    if base != 0 {
                        return Some(base);
                    }
                }
            }
        } else {
            assert(!table_ok(mem@, address_value as int, sig_hpet()));
        }
        index = index + 1;
    }
    None
}

} // verus!
