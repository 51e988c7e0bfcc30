use vstd::prelude::*;
use super::{FlowControl, SerialConfig};

verus! {

pub const DR: usize = 0x00;
pub const FR: usize = 0x18;
pub const IBRD: usize = 0x24;
pub const FBRD: usize = 0x28;
pub const LCRH: usize = 0x2c;
pub const CR: usize = 0x30;
pub const IMSC: usize = 0x38;
pub const ICR: usize = 0x44;
pub const TX_POLL_LIMIT: usize = 1_000_000;
pub const UART_CLOCK_HZ: u32 = 24_000_000;
pub const DEFAULT_BAUD: u32 = 115_200;

/// 115200 baud from a 24 MHz clock, FIFO on, no flow control.
pub fn default_config() -> (r: SerialConfig)
    ensures
        r == (SerialConfig {
            clock_hz: UART_CLOCK_HZ,
            baud: DEFAULT_BAUD,
            fifo: true,
            flow_control: FlowControl::Disabled,
        }),
{
    SerialConfig::new(UART_CLOCK_HZ, DEFAULT_BAUD, true, FlowControl::Disabled)
}

/// The integer and fractional baud divisors, in 64ths, rounded to nearest.
pub open spec fn spec_divisor(config: SerialConfig) -> Option<(u32, u32)> {
    if config.clock_hz == 0 || config.baud == 0 || config.clock_hz * 4 > u32::MAX
        || config.clock_hz * 4 + config.baud / 2 > u32::MAX {
        None
    } else {
        let scaled = (config.clock_hz * 4 + config.baud / 2) / (config.baud as int);
        let integer = scaled / 64;
        if integer == 0 || integer > u16::MAX {
            None
        } else {
            Some((integer as u32, (scaled % 64) as u32))
        }
    }
}

pub fn divisor(config: SerialConfig) -> (r: Option<(u32, u32)>)
    ensures
        r == spec_divisor(config),
{
    if config.clock_hz == 0 || config.baud == 0 {
        return None;
    }
    let times_four = match config.clock_hz.checked_mul(4) {
        Some(v) => v,
        None => return None,
    };
    let sum = match times_four.checked_add(config.baud / 2) {
        Some(v) => v,
        None => return None,
    };
    let scaled = sum / config.baud;
    let integer = scaled / 64;
    if integer == 0 || integer > 0xffff {
        return None;
    }
    Some((integer, scaled % 64))
}

/// The line control and control register values.
pub fn control_values(config: SerialConfig) -> (r: (u32, u32))
    ensures
        r.0 == (if config.fifo {
            0x70u32
        } else {
            0x60u32
        }),
        r.1 == (if config.flow_control == FlowControl::RtsCts {
            0xc301u32
        } else {
            0x301u32
        }),
{
    let lcrh: u32 = if config.fifo {
        0x70
    } else {
        0x60
    };
    let mut cr: u32 = 0x301;
    if config.flow_control == FlowControl::RtsCts {
        cr = 0x301 | 0xc000;
        assert(0x301u32 | 0xc000u32 == 0xc301u32) by (bit_vector);
    }
    (lcrh, cr)
}

/// The register writes that initialise the UART at the configuration, in order;
/// `None` when no divisor fits.
pub fn init_writes(config: SerialConfig) -> (r: Option<Vec<(usize, u32)>>)
    ensures
        spec_divisor(config) is None ==> r is None,
        spec_divisor(config) is Some ==> r is Some && r.unwrap()@ == seq![
            (CR, 0u32),
            (ICR, 0x7ffu32),
            (IBRD, spec_divisor(config).unwrap().0),
            (FBRD, spec_divisor(config).unwrap().1),
            (LCRH, if config.fifo { 0x70u32 } else { 0x60u32 }),
            (IMSC, 0u32),
            (CR, if config.flow_control == FlowControl::RtsCts { 0xc301u32 } else { 0x301u32 }),
        ],
{
    let (ibrd, fbrd) = match divisor(config) {
        Some(d) => d,
        None => return None,
    };
    let (lcrh, cr) = control_values(config);
    let mut writes: Vec<(usize, u32)> = Vec::new();
    writes.push((CR, 0));
    writes.push((ICR, 0x7ff));
    writes.push((IBRD, ibrd));
    writes.push((FBRD, fbrd));
    writes.push((LCRH, lcrh));
    writes.push((IMSC, 0));
    writes.push((CR, cr));
    Some(writes)
}

/// The flag register says the transmit FIFO has room.
pub fn tx_ready(flags: u32) -> (r: bool)
    ensures
        r == (flags & 0x20 == 0),
{
    flags & 0x20 == 0
}

/// The flag register says a received byte is waiting.
pub fn rx_ready(flags: u32) -> (r: bool)
    ensures
        r == (flags & 0x10 == 0),
{
    flags & 0x10 == 0
}


/// One access to the UART's register window, with the answer it got.
#[derive(Clone, Copy, Debug, PartialEq, Eq, Structural)]
pub enum MmioAccess {
    Read(usize, Option<u32>),
    Write(usize, u32, bool),
}

/// 32-bit access to the UART's register window. What a register reads as is the
/// device's own; `accesses` records each access made, in order, with its answer.
pub trait Mmio {
    spec fn accesses(&self) -> Seq<MmioAccess>;

    fn read_u32(&mut self, offset: usize) -> (r: Option<u32>)
        ensures
            final(self).accesses() == old(self).accesses().push(MmioAccess::Read(offset, r)),
    ;

    fn write_u32(&mut self, offset: usize, value: u32) -> (r: bool)
        ensures
            final(self).accesses() == old(self).accesses().push(MmioAccess::Write(offset, value, r)),
    ;
}

/// A register window whose registers answer from a table: a register reads as the
/// latest answer set for it, and as `Some(0)` when it has none; writes are kept in
/// order.
pub struct RegisterWindow {
    pub answers: Vec<(usize, Option<u32>)>,
    pub writes: Vec<(usize, u32)>,
    pub log: Ghost<Seq<MmioAccess>>,
}

impl RegisterWindow {
    pub fn new() -> (r: Self)
        ensures
            r.answers@.len() == 0,
            r.writes@.len() == 0,
            r.log@.len() == 0,
    {
        RegisterWindow { answers: Vec::new(), writes: Vec::new(), log: Ghost(Seq::empty()) }
    }

    /// From now on register `offset` reads as `value`.
    pub fn answer(&mut self, offset: usize, value: Option<u32>)
        ensures
            final(self).answers@ == old(self).answers@.push((offset, value)),
            final(self).writes@ == old(self).writes@,
            final(self).log@ == old(self).log@,
    {
        self.answers.push((offset, value));
    }
}

impl Mmio for RegisterWindow {
    open spec fn accesses(&self) -> Seq<MmioAccess> {
        self.log@
    }

    fn read_u32(&mut self, offset: usize) -> (r: Option<u32>) {
        let mut i = self.answers.len();
        let mut found: Option<u32> = Some(0);
        while i > 0
            invariant
                i <= self.answers@.len(),
                self.log@ == old(self).log@,
            decreases i,
        {
            let entry = self.answers[i - 1];
            if entry.0 == offset {
                found = entry.1;
                break;
            }
            i = i - 1;
        }
        proof {
            self.log@ = self.log@.push(MmioAccess::Read(offset, found));
        }
        found
    }

    fn write_u32(&mut self, offset: usize, value: u32) -> (r: bool)
        ensures
            r,
            final(self).writes@ == old(self).writes@.push((offset, value)),
    {
        self.writes.push((offset, value));
        proof {
            self.log@ = self.log@.push(MmioAccess::Write(offset, value, true));
        }
        true
    }
}

/// A flag read that found the transmit FIFO full; an unreadable flag register counts
/// as full.
pub open spec fn full_poll(a: MmioAccess) -> bool {
    match a {
        MmioAccess::Read(offset, flags) => offset == FR && match flags {
            Some(f) => f & 0x20 != 0,
            None => true,
        },
        MmioAccess::Write(..) => false,
    }
}

/// A flag read that found room in the transmit FIFO.
pub open spec fn room_poll(a: MmioAccess) -> bool {
    match a {
        MmioAccess::Read(offset, flags) => offset == FR && match flags {
            Some(f) => f & 0x20 == 0,
            None => false,
        },
        MmioAccess::Write(..) => false,
    }
}

/// What sending `byte` asked of the registers, with its answer `r`: flag reads that
/// found the FIFO full, `TX_POLL_LIMIT` of them and `r` false when none found room;
/// otherwise fewer, then a flag read that found room and one write of the byte to the
/// data register, whose answer is `r`.
pub open spec fn send_log(log: Seq<MmioAccess>, byte: u8, r: bool) -> bool {
    ||| log.len() == TX_POLL_LIMIT && !r && forall|i: int| 0 <= i < log.len() ==> full_poll(#[trigger] log[i])
    ||| {
        &&& 2 <= log.len() <= TX_POLL_LIMIT + 1
        &&& forall|i: int| 0 <= i < log.len() - 2 ==> full_poll(#[trigger] log[i])
        &&& room_poll(log[log.len() - 2])
        &&& log[log.len() - 1] == MmioAccess::Write(DR, byte as u32, r)
    }
}

/// What a receive asked of the registers, with its answer `r`: a flag read; when it
/// failed or found nothing waiting, that is all and there is no byte; otherwise a read
/// of the data register, whose low byte is the answer (none when that read failed).
pub open spec fn receive_log(log: Seq<MmioAccess>, r: Option<u8>) -> bool {
    &&& log.len() >= 1
    &&& match log[0] {
        MmioAccess::Read(offset, flags) => offset == FR && match flags {
            Some(f) if f & 0x10 == 0 => log.len() == 2 && match log[1] {
                MmioAccess::Read(d, value) => d == DR && match value {
                    Some(v) => r == Some(v as u8),
                    None => r is None,
                },
                MmioAccess::Write(..) => false,
            },
            _ => log.len() == 1 && r is None,
        },
        MmioAccess::Write(..) => false,
    }
}

/// The register writes that initialise the UART at `config` (one with a divisor), in
/// order, as `init_writes` gives them.
pub open spec fn init_plan(config: SerialConfig) -> Seq<(usize, u32)> {
    seq![
        (CR, 0u32),
        (ICR, 0x7ffu32),
        (IBRD, spec_divisor(config).unwrap().0),
        (FBRD, spec_divisor(config).unwrap().1),
        (LCRH, if config.fifo { 0x70u32 } else { 0x60u32 }),
        (IMSC, 0u32),
        (CR, if config.flow_control == FlowControl::RtsCts { 0xc301u32 } else { 0x301u32 }),
    ]
}

/// The first `k` writes of `plan` as the window records them: each accepted but the
/// last, which was refused when `refused`.
pub open spec fn write_log(plan: Seq<(usize, u32)>, k: int, refused: bool) -> Seq<MmioAccess> {
    Seq::new(k as nat, |i: int| MmioAccess::Write(plan[i].0, plan[i].1, !(refused && i == k - 1)))
}

/// Initialises the UART with `init_writes`, stopping at the first write refused.
pub fn init_with_config<M: Mmio>(mmio: &mut M, config: SerialConfig) -> (r: bool)
    ensures
        r ==> spec_divisor(config) is Some,
        spec_divisor(config) is None ==> final(mmio).accesses() == old(mmio).accesses(),
        spec_divisor(config) is Some ==> ({
            let k = final(mmio).accesses().len() - old(mmio).accesses().len();
            &&& 0 <= k <= 7
            &&& final(mmio).accesses() == old(mmio).accesses() + write_log(init_plan(config), k, !r)
            &&& r ==> k == 7
            &&& !r ==> k >= 1
        }),
{
    let writes = match init_writes(config) {
        Some(w) => w,
        None => return false,
    };
    let ghost a0 = mmio.accesses();
    proof {
        assert(writes@ == init_plan(config));
        assert(a0 + write_log(init_plan(config), 0, false) =~= a0);
    }
    let mut i: usize = 0;
    while i < writes.len()
        invariant
            i <= writes@.len(),
            writes@ == init_plan(config),
            spec_divisor(config) is Some,
            a0 == old(mmio).accesses(),
            mmio.accesses() == a0 + write_log(init_plan(config), i as int, false),
        decreases writes@.len() - i,
    {
        let (offset, value) = writes[i];
        let ok = mmio.write_u32(offset, value);
        if !ok {
            proof {
                assert(mmio.accesses() =~= a0 + write_log(init_plan(config), i + 1, true));
            }
            return false;
        }
        proof {
            assert(mmio.accesses() =~= a0 + write_log(init_plan(config), i + 1, false));
        }
        i = i + 1;
    }
    true
}

/// Initialises the UART with the default configuration.
pub fn init<M: Mmio>(mmio: &mut M) -> (r: bool)
    ensures
        r ==> spec_divisor(
            SerialConfig { clock_hz: UART_CLOCK_HZ, baud: DEFAULT_BAUD, fifo: true, flow_control: FlowControl::Disabled },
        ) is Some,
{
    init_with_config(mmio, default_config())
}

/// Sends a byte once the transmit FIFO has room, polling at most `TX_POLL_LIMIT` times;
/// an unreadable flag register counts as full.
pub fn write<M: Mmio>(mmio: &mut M, byte: u8) -> (r: bool)
    ensures
        final(mmio).accesses().len() >= old(mmio).accesses().len(),
        final(mmio).accesses().take(old(mmio).accesses().len() as int) == old(mmio).accesses(),
        send_log(final(mmio).accesses().skip(old(mmio).accesses().len() as int), byte, r),
{
    let ghost a0 = mmio.accesses();
    let mut polls: usize = 0;
    while polls < TX_POLL_LIMIT
        invariant
            polls <= TX_POLL_LIMIT,
            a0 == old(mmio).accesses(),
            mmio.accesses().len() == a0.len() + polls,
            mmio.accesses().take(a0.len() as int) == a0,
            forall|i: int| 0 <= i < polls ==> full_poll(#[trigger] mmio.accesses().skip(a0.len() as int)[i]),
        decreases TX_POLL_LIMIT - polls,
    {
        let ghost before = mmio.accesses();
        let read = mmio.read_u32(FR);
        proof {
            assert(mmio.accesses().take(a0.len() as int) =~= before.take(a0.len() as int));
            assert forall|i: int| 0 <= i < polls implies #[trigger] mmio.accesses().skip(a0.len() as int)[i]
                == before.skip(a0.len() as int)[i] by {}
        }
        let flags = match read {
            Some(f) => f,
            None => 0x20,
        };
        if tx_ready(flags) {
            let ghost middle = mmio.accesses();
            let r = mmio.write_u32(DR, byte as u32);
            proof {
                assert(mmio.accesses().take(a0.len() as int) =~= a0);
                let log = mmio.accesses().skip(a0.len() as int);
                assert(log.len() == polls + 2);
                assert forall|i: int| 0 <= i < log.len() - 2 implies full_poll(#[trigger] log[i]) by {
                    assert(log[i] == before.skip(a0.len() as int)[i]);
                }
                assert(log[log.len() - 2] == MmioAccess::Read(FR, read));
                assert(0x20u32 & 0x20 != 0) by (bit_vector);
                assert(read is Some);
                assert(room_poll(log[log.len() - 2]));
                assert(log[log.len() - 1] == MmioAccess::Write(DR, byte as u32, r));
            }
            return r;
        }
        proof {
            assert(mmio.accesses().skip(a0.len() as int)[polls as int] == MmioAccess::Read(FR, read));
        }
        polls = polls + 1;
    }
    false
}

/// The received byte, when one is waiting.
pub fn read<M: Mmio>(mmio: &mut M) -> (r: Option<u8>)
    ensures
        final(mmio).accesses().len() >= old(mmio).accesses().len(),
        final(mmio).accesses().take(old(mmio).accesses().len() as int) == old(mmio).accesses(),
        receive_log(final(mmio).accesses().skip(old(mmio).accesses().len() as int), r),
{
    let ghost a0 = mmio.accesses();
    let first = mmio.read_u32(FR);
    let flags = match first {
        Some(f) => f,
        None => {
            proof {
                assert(mmio.accesses().take(a0.len() as int) =~= a0);
                assert(mmio.accesses().skip(a0.len() as int) =~= seq![MmioAccess::Read(FR, first)]);
            }
            return None;
        },
    };
    if !rx_ready(flags) {
        proof {
            assert(mmio.accesses().take(a0.len() as int) =~= a0);
            assert(mmio.accesses().skip(a0.len() as int) =~= seq![MmioAccess::Read(FR, first)]);
        }
        return None;
    }
    let value = mmio.read_u32(DR);
    proof {
        assert(mmio.accesses().take(a0.len() as int) =~= a0);
        assert(mmio.accesses().skip(a0.len() as int) =~= seq![MmioAccess::Read(FR, first), MmioAccess::Read(DR, value)]);
    }
    match value {
        Some(v) => Some(v as u8),
        None => None,
    }
}

/// Checks the divisor and control values of the default configuration and of one
/// without FIFO and with hardware flow control.
pub fn contract_self_check() {
    let d = divisor(default_config());
    assert((96_000_000int + 57_600int) / 115_200int == 833) by (nonlinear_arith);
    assert(d == Some((13u32, 1u32)));
    let none = divisor(SerialConfig::new(0, DEFAULT_BAUD, true, FlowControl::Disabled));
    assert(none is None);
    let c = control_values(default_config());
    assert(c == (0x70u32, 0x301u32));
    let c = control_values(SerialConfig::new(UART_CLOCK_HZ, DEFAULT_BAUD, false, FlowControl::RtsCts));
    assert(c == (0x60u32, 0xc301u32));
}

} // verus!
