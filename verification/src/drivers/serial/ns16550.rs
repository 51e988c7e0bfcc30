use vstd::prelude::*;
use super::{FlowControl, SerialConfig, EARLY_TX_POLL_LIMIT};

verus! {

pub const RBR_THR: usize = 0;
pub const IER: usize = 1;
pub const FCR: usize = 2;
pub const LCR: usize = 3;
pub const MCR: usize = 4;
pub const LSR: usize = 5;
pub const SCRATCH: usize = 7;
pub const DLL: usize = 0;
pub const DLM: usize = 1;
pub const UART_CLOCK_HZ: u32 = 1_843_200;
pub const DEFAULT_BAUD: u32 = 115_200;
/// The value written to and read back from the scratch register to find a UART.
pub const PROBE: u8 = 0xa5;

/// 115200 baud from the standard 1.8432 MHz clock, FIFO on, no flow control.
pub fn default_config() -> (r: SerialConfig)
    ensures
        r == (SerialConfig {
            clock_hz: UART_CLOCK_HZ,
            baud: DEFAULT_BAUD,
            fifo: true,
            flow_control: FlowControl::Disabled,
        }),
{
    SerialConfig::new(UART_CLOCK_HZ, DEFAULT_BAUD, true, FlowControl::Disabled)
}

/// The baud divisor: the clock over sixteen times the baud rate, rounded to nearest.
pub open spec fn spec_divisor(config: SerialConfig) -> Option<u16> {
    let denominator = config.baud * 16;
    if config.clock_hz == 0 || config.baud == 0 || denominator > u32::MAX || config.clock_hz
        + denominator / 2 > u32::MAX {
        None
    } else {
        let divisor = (config.clock_hz + denominator / 2) / denominator;
        if divisor == 0 || divisor > u16::MAX {
            None
        } else {
            Some(divisor as u16)
        }
    }
}

pub fn divisor(config: SerialConfig) -> (r: Option<u16>)
    ensures
        r == spec_divisor(config),
{
    if config.clock_hz == 0 || config.baud == 0 {
        return None;
    }
    let denominator = match config.baud.checked_mul(16) {
        Some(d) => d,
        None => return None,
    };
    let sum = match config.clock_hz.checked_add(denominator / 2) {
        Some(s) => s,
        None => return None,
    };
    let divisor = sum / denominator;
    if divisor == 0 || divisor > 0xffff {
        None
    } else {
        Some(divisor as u16)
    }
}

/// The modem control and FIFO control register values.
pub fn control_values(config: SerialConfig) -> (r: (u8, u8))
    ensures
        r.0 == (if config.flow_control == FlowControl::Disabled {
            0x0bu8
        } else {
            0x2bu8
        }),
        r.1 == (if config.fifo {
            0xc7u8
        } else {
            0u8
        }),
{
    let mcr: u8 = match config.flow_control {
        FlowControl::Disabled => 0x0b,
        FlowControl::RtsCts => 0x2b,
    };
    let fcr: u8 = if config.fifo {
        0xc7
    } else {
        0
    };
    (mcr, fcr)
}

/// A UART at an I/O port base, with its configuration.
#[derive(Clone, Copy, Debug, PartialEq, Eq, Structural)]
pub struct Port {
    pub base: u16,
    pub config: SerialConfig,
}

impl Port {
    /// A port whose eight registers fit in the port space.
    pub fn new(base: u16, config: SerialConfig) -> (r: Option<Self>)
        ensures
            r == (if base + 8 <= 0x1_0000 {
                Some(Port { base, config })
            } else {
                None::<Port>
            }),
    {
        if base as u32 + 8 > 0x1_0000 {
            return None;
        }
        Some(Port { base, config })
    }

    /// The register writes that initialise the UART, in order: interrupts off, the
    /// divisor latched, 8N1, FIFO and modem control; `None` when no divisor fits.
    pub fn init_writes(&self) -> (r: Option<Vec<(usize, u8)>>)
        ensures
            spec_divisor(self.config) is None ==> r is None,
            spec_divisor(self.config) is Some ==> r is Some && r.unwrap()@ == seq![
                (IER, 0x00u8),
                (LCR, 0x80u8),
                (DLL, (spec_divisor(self.config).unwrap() % 256) as u8),
                (DLM, (spec_divisor(self.config).unwrap() / 256) as u8),
                (LCR, 0x03u8),
                (FCR, if self.config.fifo { 0xc7u8 } else { 0u8 }),
                (MCR, if self.config.flow_control == FlowControl::Disabled { 0x0bu8 } else { 0x2bu8 }),
            ],
    {
        let divisor = match divisor(self.config) {
            Some(d) => d,
            None => return None,
        };
        let (mcr, fcr) = control_values(self.config);
        let mut writes: Vec<(usize, u8)> = Vec::new();
        writes.push((IER, 0x00));
        writes.push((LCR, 0x80));
        writes.push((DLL, (divisor % 256) as u8));
        writes.push((DLM, (divisor / 256) as u8));
        writes.push((LCR, 0x03));
        writes.push((FCR, fcr));
        writes.push((MCR, mcr));
        Some(writes)
    }

    /// The line status says the transmitter holding register is empty.
    pub fn tx_ready(&self, lsr: u8) -> (r: bool)
        ensures
            r == (lsr & 0x20 != 0),
    {
        lsr & 0x20 != 0
    }

    /// The line status says a received byte is waiting.
    pub fn rx_ready(&self, lsr: u8) -> (r: bool)
        ensures
            r == (lsr & 1 != 0),
    {
        lsr & 1 != 0
    }
}


/// One access to the I/O port space, with the answer it got.
#[derive(Clone, Copy, Debug, PartialEq, Eq, Structural)]
pub enum PortAccess {
    Read(u16, Option<u8>),
    Write(u16, u8, bool),
}

/// Byte access to the I/O port space. What a port reads as is the device's own;
/// `accesses` records each access made, in order, with its answer.
pub trait PortIo {
    spec fn accesses(&self) -> Seq<PortAccess>;

    fn read_u8(&mut self, port: u16) -> (r: Option<u8>)
        ensures
            final(self).accesses() == old(self).accesses().push(PortAccess::Read(port, r)),
    ;

    fn write_u8(&mut self, port: u16, value: u8) -> (r: bool)
        ensures
            final(self).accesses() == old(self).accesses().push(PortAccess::Write(port, value, r)),
    ;
}

/// Ports that answer from tables: a port reads as the latest fixed answer set for it,
/// else as the latest value written to it, else as `Some(0)`; writes are kept in order.
pub struct PortBank {
    pub fixed: Vec<(u16, Option<u8>)>,
    pub writes: Vec<(u16, u8)>,
    pub log: Ghost<Seq<PortAccess>>,
}

impl PortBank {
    pub fn new() -> (r: Self)
        ensures
            r.fixed@.len() == 0,
            r.writes@.len() == 0,
            r.log@.len() == 0,
    {
        PortBank { fixed: Vec::new(), writes: Vec::new(), log: Ghost(Seq::empty()) }
    }

    /// From now on `port` reads as `value`, whatever is written to it.
    pub fn answer(&mut self, port: u16, value: Option<u8>)
        ensures
            final(self).fixed@ == old(self).fixed@.push((port, value)),
            final(self).writes@ == old(self).writes@,
            final(self).log@ == old(self).log@,
    {
        self.fixed.push((port, value));
    }
}

impl PortIo for PortBank {
    open spec fn accesses(&self) -> Seq<PortAccess> {
        self.log@
    }

    fn read_u8(&mut self, port: u16) -> (r: Option<u8>) {
        let mut i = self.fixed.len();
        while i > 0
            invariant
                i <= self.fixed@.len(),
                self.log@ == old(self).log@,
            decreases i,
        {
            let entry = self.fixed[i - 1];
            if entry.0 == port {
                proof {
                    self.log@ = self.log@.push(PortAccess::Read(port, entry.1));
                }
                return entry.1;
            }
            i = i - 1;
        }
        let mut k = self.writes.len();
        while k > 0
            invariant
                k <= self.writes@.len(),
                self.log@ == old(self).log@,
            decreases k,
        {
            let entry = self.writes[k - 1];
            if entry.0 == port {
                proof {
                    self.log@ = self.log@.push(PortAccess::Read(port, Some(entry.1)));
                }
                return Some(entry.1);
            }
            k = k - 1;
        }
        proof {
            self.log@ = self.log@.push(PortAccess::Read(port, Some(0u8)));
        }
        Some(0)
    }

    fn write_u8(&mut self, port: u16, value: u8) -> (r: bool)
        ensures
            r,
            final(self).writes@ == old(self).writes@.push((port, value)),
    {
        self.writes.push((port, value));
        proof {
            self.log@ = self.log@.push(PortAccess::Write(port, value, true));
        }
        true
    }
}

/// The first `k` writes of `plan` as the ports record them: each accepted but the last,
/// which was refused when `refused`.
pub open spec fn port_write_log(plan: Seq<(u16, u8)>, k: int, refused: bool) -> Seq<PortAccess> {
    Seq::new(k as nat, |i: int| PortAccess::Write(plan[i].0, plan[i].1, !(refused && i == k - 1)))
}

/// A read of the scratch register at `port` whose answer decides `r`: the probe value
/// read back.
pub open spec fn probe_read(a: PortAccess, port: u16, r: bool) -> bool {
    match a {
        PortAccess::Read(p, answer) => p == port && r == (answer == Some(PROBE)),
        PortAccess::Write(..) => false,
    }
}

/// The accesses after a starting log `a0` can be told apart from it.
proof fn lemma_port_log_split(a0: Seq<PortAccess>, tail: Seq<PortAccess>)
    ensures
        (a0 + tail).len() >= a0.len(),
        (a0 + tail).take(a0.len() as int) == a0,
        (a0 + tail).skip(a0.len() as int) == tail,
{
    assert((a0 + tail).take(a0.len() as int) =~= a0);
    assert((a0 + tail).skip(a0.len() as int) =~= tail);
}

/// A line status read at `lsr_port` that found the transmitter busy; an unreadable
/// status counts as busy.
pub open spec fn busy_poll(a: PortAccess, lsr_port: u16) -> bool {
    match a {
        PortAccess::Read(port, status) => port == lsr_port && match status {
            Some(v) => v & 0x20 == 0,
            None => true,
        },
        PortAccess::Write(..) => false,
    }
}

/// A line status read at `lsr_port` that found the transmitter ready.
pub open spec fn ready_poll(a: PortAccess, lsr_port: u16) -> bool {
    a matches PortAccess::Read(port, Some(v)) && port == lsr_port && v & 0x20 != 0
}

/// What sending `byte` through the UART at `base` asked of the ports, with its answer
/// `r`: line status reads that found the transmitter busy, `EARLY_TX_POLL_LIMIT` of them
/// and `r` false when none found it ready; otherwise fewer, then one that found it
/// ready and one write of the byte to the transmit register, whose answer is `r`.
pub open spec fn send_log(log: Seq<PortAccess>, base: u16, byte: u8, r: bool) -> bool {
    let lsr = (base + LSR) as u16;
    ||| log.len() == EARLY_TX_POLL_LIMIT && !r && forall|i: int| 0 <= i < log.len() ==> busy_poll(#[trigger] log[i], lsr)
    ||| {
        &&& 2 <= log.len() <= EARLY_TX_POLL_LIMIT + 1
        &&& forall|i: int| 0 <= i < log.len() - 2 ==> busy_poll(#[trigger] log[i], lsr)
        &&& ready_poll(log[log.len() - 2], lsr)
        &&& log[log.len() - 1] == PortAccess::Write(base, byte, r)
    }
}

/// What a receive from the UART at `base` asked of the ports, with its answer `r`: a
/// line status read; when it failed or found nothing waiting, that is all and there is
/// no byte; otherwise a read of the receive register, which is the answer.
pub open spec fn receive_log(log: Seq<PortAccess>, base: u16, r: Option<u8>) -> bool {
    &&& log.len() >= 1
    &&& match log[0] {
        PortAccess::Read(port, status) => port == base + LSR && match status {
            Some(v) if v & 1 != 0 => log.len() == 2 && log[1] == PortAccess::Read(base, r),
            _ => log.len() == 1 && r is None,
        },
        PortAccess::Write(..) => false,
    }
}

impl Port {
    pub open spec fn fits(&self) -> bool {
        self.base + 8 <= 0x1_0000
    }

    fn register(&self, offset: usize) -> (r: u16)
        requires
            self.fits(),
            offset < 8,
        ensures
            r == self.base + offset,
    {
        self.base + offset as u16
    }

    /// What `init` asked of the ports, going from `before` to `after`, with its answer
    /// `r`: nothing without a divisor; otherwise the writes of `port_plan` up to a
    /// refused one, or all of them and a read of the scratch register whose answer is
    /// the probe value exactly when `r`.
    pub open spec fn init_outcome(&self, before: Seq<PortAccess>, after: Seq<PortAccess>, r: bool) -> bool {
        &&& r ==> spec_divisor(self.config) is Some
        &&& spec_divisor(self.config) is None ==> after == before && !r
        &&& spec_divisor(self.config) is Some ==> ({
            let log = after.skip(before.len() as int);
            let plan = self.port_plan();
            &&& after.len() >= before.len()
            &&& after.take(before.len() as int) == before
            &&& {
                ||| (exists|k: int| 1 <= k <= plan.len() && #[trigger] port_write_log(plan, k, true) == log) && !r
                ||| log.len() == 9 && log.take(8) == port_write_log(plan, 8, false) && probe_read(
                    log[8],
                    (self.base + SCRATCH) as u16,
                    r,
                )
            }
        })
    }

    /// What one poll of the line status asked of the ports, with its answer `r`: one
    /// read of the status register, and `r` when it found the transmitter ready.
    pub open spec fn poll_outcome(&self, before: Seq<PortAccess>, after: Seq<PortAccess>, r: bool) -> bool {
        &&& after.len() == before.len() + 1
        &&& after.drop_last() == before
        &&& after.last() matches PortAccess::Read(port, _) && port == (self.base + LSR) as u16
        &&& r == ready_poll(after.last(), (self.base + LSR) as u16)
    }

    /// Initialises the UART with `init_writes`, stopping at the first write refused, then
    /// checks that the scratch register keeps what is written to it.
    pub fn init<I: PortIo>(&self, io: &mut I) -> (r: bool)
        requires
            self.fits(),
        ensures
            r ==> spec_divisor(self.config) is Some,
            self.init_outcome(old(io).accesses(), final(io).accesses(), r),
    {
        let writes = match self.init_writes() {
            Some(w) => w,
            None => return false,
        };
        let ghost a0 = io.accesses();
        let ghost plan = self.port_plan();
        proof {
            assert(a0 + port_write_log(plan, 0, false) =~= a0);
        }
        let mut i: usize = 0;
        while i < writes.len()
            invariant
                self.fits(),
                i <= writes@.len(),
                writes@.len() == 7,
                forall|k: int| 0 <= k < writes@.len() ==> #[trigger] writes@[k].0 < 8,
                forall|k: int| 0 <= k < 7 ==> #[trigger] plan[k] == ((self.base + writes@[k].0) as u16, writes@[k].1),
                plan == self.port_plan(),
                spec_divisor(self.config) is Some,
                a0 == old(io).accesses(),
                io.accesses() == a0 + port_write_log(plan, i as int, false),
            decreases writes@.len() - i,
        {
            let (offset, value) = writes[i];
            let ok = io.write_u8(self.register(offset), value);
            if !ok {
                proof {
                    assert(io.accesses() =~= a0 + port_write_log(plan, i + 1, true));
                    lemma_port_log_split(a0, port_write_log(plan, i + 1, true));
                }
                return false;
            }
            proof {
                assert(io.accesses() =~= a0 + port_write_log(plan, i + 1, false));
            }
            i = i + 1;
        }
        let probe_ok = io.write_u8(self.register(SCRATCH), PROBE);
        if !probe_ok {
            proof {
                assert(io.accesses() =~= a0 + port_write_log(plan, 8, true));
                lemma_port_log_split(a0, port_write_log(plan, 8, true));
            }
            return false;
        }
        proof {
            assert(io.accesses() =~= a0 + port_write_log(plan, 8, false));
        }
        let answer = io.read_u8(self.register(SCRATCH));
        proof {
            let log = port_write_log(plan, 8, false).push(PortAccess::Read((self.base + SCRATCH) as u16, answer));
            assert(io.accesses() =~= a0 + log);
            lemma_port_log_split(a0, log);
            assert(log.take(8) =~= port_write_log(plan, 8, false));
        }
        answer == Some(PROBE)
    }

    /// The port writes that initialise the UART (one with a divisor), in order: those of
    /// `init_writes` at their ports, then the probe value to the scratch register.
    pub open spec fn port_plan(&self) -> Seq<(u16, u8)> {
        let d = spec_divisor(self.config).unwrap();
        seq![
            ((self.base + IER) as u16, 0x00u8),
            ((self.base + LCR) as u16, 0x80u8),
            ((self.base + DLL) as u16, (d % 256) as u8),
            ((self.base + DLM) as u16, (d / 256) as u8),
            ((self.base + LCR) as u16, 0x03u8),
            ((self.base + FCR) as u16, if self.config.fifo { 0xc7u8 } else { 0u8 }),
            ((self.base + MCR) as u16, if self.config.flow_control == FlowControl::Disabled { 0x0bu8 } else { 0x2bu8 }),
            ((self.base + SCRATCH) as u16, PROBE),
        ]
    }

    /// Whether the transmitter can take a byte now (an unreadable status says no).
    pub fn poll_tx_ready<I: PortIo>(&self, io: &mut I) -> (r: bool)
        requires
            self.fits(),
        ensures
            self.poll_outcome(old(io).accesses(), final(io).accesses(), r),
    {
        let ghost a0 = io.accesses();
        let status = io.read_u8(self.register(LSR));
        let lsr = match status {
            Some(v) => v,
            None => 0,
        };
        assert(0u8 & 0x20 == 0) by (bit_vector);
        assert(io.accesses().drop_last() =~= a0);
        self.tx_ready(lsr)
    }

    /// Sends a byte once the transmitter is ready, polling at most `EARLY_TX_POLL_LIMIT`
    /// times.
    pub fn write<I: PortIo>(&self, io: &mut I, byte: u8) -> (r: bool)
        requires
            self.fits(),
        ensures
            final(io).accesses().len() >= old(io).accesses().len(),
            final(io).accesses().take(old(io).accesses().len() as int) == old(io).accesses(),
            send_log(final(io).accesses().skip(old(io).accesses().len() as int), self.base, byte, r),
    {
        let ghost a0 = io.accesses();
        let ghost lsr = (self.base + LSR) as u16;
        let mut polls: usize = 0;
        while polls < EARLY_TX_POLL_LIMIT
            invariant
                self.fits(),
                lsr == (self.base + LSR) as u16,
                polls <= EARLY_TX_POLL_LIMIT,
                a0 == old(io).accesses(),
                io.accesses().len() == a0.len() + polls,
                io.accesses().take(a0.len() as int) == a0,
                forall|i: int| 0 <= i < polls ==> busy_poll(#[trigger] io.accesses().skip(a0.len() as int)[i], lsr),
            decreases EARLY_TX_POLL_LIMIT - polls,
        {
            let ghost before = io.accesses();
            let ready = self.poll_tx_ready(io);
            proof {
                assert(io.accesses().take(a0.len() as int) =~= before.take(a0.len() as int));
                assert forall|i: int| 0 <= i < polls implies #[trigger] io.accesses().skip(a0.len() as int)[i]
                    == before.skip(a0.len() as int)[i] by {}
            }
            if ready {
                let r = io.write_u8(self.register(RBR_THR), byte);
                proof {
                    assert(io.accesses().take(a0.len() as int) =~= a0);
                    let log = io.accesses().skip(a0.len() as int);
                    assert(log.len() == polls + 2);
                    assert forall|i: int| 0 <= i < log.len() - 2 implies busy_poll(#[trigger] log[i], lsr) by {
                        assert(log[i] == before.skip(a0.len() as int)[i]);
                    }
                    assert(log[log.len() - 2] == io.accesses()[a0.len() + polls]);
                    assert(log[log.len() - 1] == PortAccess::Write(self.base, byte, r));
                }
                return r;
            }
            proof {
                let log = io.accesses().skip(a0.len() as int);
                assert(log[polls as int] == io.accesses()[a0.len() + polls]);
            }
            polls = polls + 1;
        }
        false
    }

    /// The received byte, when one is waiting.
    pub fn read<I: PortIo>(&self, io: &mut I) -> (r: Option<u8>)
        requires
            self.fits(),
        ensures
            final(io).accesses().len() >= old(io).accesses().len(),
            final(io).accesses().take(old(io).accesses().len() as int) == old(io).accesses(),
            receive_log(final(io).accesses().skip(old(io).accesses().len() as int), self.base, r),
    {
        let ghost a0 = io.accesses();
        let status = io.read_u8(self.register(LSR));
        let lsr = match status {
            Some(v) => v,
            None => {
                proof {
                    assert(io.accesses().take(a0.len() as int) =~= a0);
                    assert(io.accesses().skip(a0.len() as int) =~= seq![PortAccess::Read((self.base + LSR) as u16, status)]);
                }
                return None;
            },
        };
        if !self.rx_ready(lsr) {
            proof {
                assert(io.accesses().take(a0.len() as int) =~= a0);
                assert(io.accesses().skip(a0.len() as int) =~= seq![PortAccess::Read((self.base + LSR) as u16, status)]);
            }
            return None;
        }
        let r = io.read_u8(self.register(RBR_THR));
        proof {
            assert(io.accesses().take(a0.len() as int) =~= a0);
            assert(io.accesses().skip(a0.len() as int) =~= seq![
                PortAccess::Read((self.base + LSR) as u16, status),
                PortAccess::Read(self.base, r),
            ]);
        }
        r
    }
}

/// The UART at `base` with the default configuration.
pub open spec fn default_port(base: u16) -> Port {
    Port { base, config: SerialConfig { clock_hz: UART_CLOCK_HZ, baud: DEFAULT_BAUD, fifo: true, flow_control: FlowControl::Disabled } }
}

/// Initialises the UART at `base` with the default configuration; a UART whose eight
/// ports do not fit below 0x1_0000 is refused without any access.
pub fn init_port_io<I: PortIo>(io: &mut I, base: u16) -> (r: bool)
    ensures
        r ==> base + 8 <= 0x1_0000,
        base + 8 > 0x1_0000 ==> !r && final(io).accesses() == old(io).accesses(),
        base + 8 <= 0x1_0000 ==> default_port(base).init_outcome(old(io).accesses(), final(io).accesses(), r),
{
    match Port::new(base, default_config()) {
        Some(port) => port.init(io),
        None => false,
    }
}

/// Sends a byte through the UART at `base` as `Port::write` does; a UART whose ports
/// do not fit is refused without any access.
pub fn write_port_io<I: PortIo>(io: &mut I, base: u16, byte: u8) -> (r: bool)
    ensures
        r ==> base + 8 <= 0x1_0000,
        base + 8 > 0x1_0000 ==> !r && final(io).accesses() == old(io).accesses(),
        base + 8 <= 0x1_0000 ==> {
            &&& final(io).accesses().len() >= old(io).accesses().len()
            &&& final(io).accesses().take(old(io).accesses().len() as int) == old(io).accesses()
            &&& send_log(final(io).accesses().skip(old(io).accesses().len() as int), base, byte, r)
        },
{
    match Port::new(base, default_config()) {
        Some(port) => port.write(io, byte),
        None => false,
    }
}

/// One poll of the UART at `base` as `Port::poll_tx_ready` does; a UART whose ports do
/// not fit is refused without any access.
pub fn tx_ready_port_io<I: PortIo>(io: &mut I, base: u16) -> (r: bool)
    ensures
        r ==> base + 8 <= 0x1_0000,
        base + 8 > 0x1_0000 ==> !r && final(io).accesses() == old(io).accesses(),
        base + 8 <= 0x1_0000 ==> default_port(base).poll_outcome(old(io).accesses(), final(io).accesses(), r),
{
    match Port::new(base, default_config()) {
        Some(port) => port.poll_tx_ready(io),
        None => false,
    }
}

/// A receive from the UART at `base` as `Port::read` does; a UART whose ports do not
/// fit gives nothing without any access.
pub fn read_port_io<I: PortIo>(io: &mut I, base: u16) -> (r: Option<u8>)
    ensures
        r is Some ==> base + 8 <= 0x1_0000,
        base + 8 > 0x1_0000 ==> r is None && final(io).accesses() == old(io).accesses(),
        base + 8 <= 0x1_0000 ==> {
            &&& final(io).accesses().len() >= old(io).accesses().len()
            &&& final(io).accesses().take(old(io).accesses().len() as int) == old(io).accesses()
            &&& receive_log(final(io).accesses().skip(old(io).accesses().len() as int), base, r)
        },
{
    match Port::new(base, default_config()) {
        Some(port) => port.read(io),
        None => None,
    }
}

/// Checks the divisor and control values of the default configuration and of one
/// without FIFO and with hardware flow control.
pub fn contract_self_check() {
    let d = divisor(default_config());
    assert((1_843_200int + 921_600int) / 1_843_200int == 1) by (nonlinear_arith);
    assert(d == Some(1u16));
    let none = divisor(SerialConfig::new(0, DEFAULT_BAUD, true, FlowControl::Disabled));
    assert(none is None);
    let c = control_values(default_config());
    assert(c == (0x0bu8, 0xc7u8));
    let c = control_values(SerialConfig::new(UART_CLOCK_HZ, DEFAULT_BAUD, false, FlowControl::RtsCts));
    assert(c == (0x2bu8, 0u8));
}

} // verus!
