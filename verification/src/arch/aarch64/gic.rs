use vstd::prelude::*;

verus! {

pub const GICD_CTLR: usize = 0x000;
pub const GICD_TYPER: usize = 0x004;
pub const GICD_ICENABLER: usize = 0x180;
pub const GICD_ISENABLER: usize = 0x100;
pub const GICD_IPRIORITYR: usize = 0x400;
pub const GICD_ICFGR: usize = 0xc00;
pub const GICD_ENABLE_GROUP0: u32 = 1;
pub const GICD_ENABLE_GROUP1: u32 = 2;
pub const GICC_CTLR: usize = 0x000;
pub const GICC_PMR: usize = 0x004;
pub const GICC_BPR: usize = 0x008;
pub const GICC_IAR: usize = 0x00c;
pub const GICC_EOIR: usize = 0x010;
pub const GICR_WAKER: usize = 0x0014;
pub const GICR_IGROUPR0: usize = 0x0080;
pub const GICR_ICENABLER0: usize = 0x0180;
pub const GICR_ISENABLER0: usize = 0x0100;
pub const GICR_IPRIORITYR: usize = 0x0400;
pub const GICR_ICFGR: usize = 0x0c00;
pub const MAX_INTERRUPTS: u32 = 1024;
pub const SPURIOUS_INTID: u32 = 1020;
pub const WAKER_SPINS: usize = 1_000_000;

/// Where the loader says the interrupt controller is, and the timer's interrupt.
#[derive(Clone, Copy, Debug, PartialEq, Eq, Structural)]
pub struct InterruptInfo {
    pub gic_version: u8,
    pub gic_distributor: u64,
    pub gic_cpu_interface: u64,
    pub gic_redistributor: u64,
    pub timer_irq: u32,
}

#[derive(Clone, Copy, Debug, PartialEq, Eq, Structural)]
pub struct Status {
    pub version: u8,
    pub distributor: u64,
    pub cpu_interface: u64,
    pub redistributor: u64,
    pub timer_intid: u32,
    pub ack_count: u64,
    pub last_ack: u32,
    pub ready: bool,
    pub timer_enabled: bool,
}

/// The register frames of the interrupt controller.
#[derive(Clone, Copy, Debug, PartialEq, Eq, Structural)]
pub enum Frame {
    Distributor,
    CpuInterface,
    /// The redistributor's SGI and PPI frame.
    RedistributorSgi,
    /// The redistributor's control frame, which holds the waker.
    RedistributorControl,
}

/// One write to the controller, with its answer.
#[derive(Clone, Copy, Debug, PartialEq, Eq, Structural)]
pub enum GicWrite {
    Word(Frame, usize, u32, bool),
    Byte(Frame, usize, u8, bool),
    SystemRegisters(bool),
}

/// Access to the controller's registers and system registers. A read does not change
/// the controller, so what it answers is named: `register` is what a register reads as
/// now. What a write does to later reads is the controller's own and is not said;
/// `writes` records the writes made, in order, with their answers.
pub trait GicRegisters {
    spec fn register(&self, frame: Frame, offset: usize) -> Option<u32>;

    spec fn writes(&self) -> Seq<GicWrite>;

    fn read_u32(&self, frame: Frame, offset: usize) -> (r: Option<u32>)
        ensures
            r == self.register(frame, offset),
    ;

    fn write_u32(&mut self, frame: Frame, offset: usize, value: u32) -> (r: bool)
        ensures
            final(self).writes() == old(self).writes().push(GicWrite::Word(frame, offset, value, r)),
    ;

    fn write_u8(&mut self, frame: Frame, offset: usize, value: u8) -> (r: bool)
        ensures
            final(self).writes() == old(self).writes().push(GicWrite::Byte(frame, offset, value, r)),
    ;

    /// Turns on the GICv3 system register interface with every priority unmasked and
    /// group 1 enabled.
    fn enable_system_registers(&mut self) -> (r: bool)
        ensures
            final(self).writes() == old(self).writes().push(GicWrite::SystemRegisters(r)),
    ;
}

/// The value `table` holds for a register: the latest entry for it, 0 when none.
pub open spec fn gic_table_value(table: Seq<(Frame, usize, u32)>, frame: Frame, offset: usize) -> u32
    decreases table.len(),
{
    if table.len() == 0 {
        0
    } else if table.last().0 == frame && table.last().1 == offset {
        table.last().2
    } else {
        gic_table_value(table.drop_last(), frame, offset)
    }
}

/// A controller held as a table of registers: a register reads as the latest value
/// set or written for it, and as 0 when it has none. Writes are kept in order and are
/// all refused while `fail_writes` is set; `enabled_system` tells whether the system
/// register interface was turned on.
pub struct GicTable {
    pub registers: Vec<(Frame, usize, u32)>,
    pub written: Vec<(Frame, usize, u32)>,
    pub fail_writes: bool,
    pub enabled_system: bool,
    pub log: Ghost<Seq<GicWrite>>,
}

impl GicTable {
    /// A controller whose type register reads as `typer`.
    pub fn new(typer: u32) -> (r: Self)
        ensures
            r.registers@ == seq![(Frame::Distributor, GICD_TYPER, typer)],
            r.written@.len() == 0,
            !r.fail_writes,
            !r.enabled_system,
            r.log@.len() == 0,
    {
        let mut registers: Vec<(Frame, usize, u32)> = Vec::new();
        registers.push((Frame::Distributor, GICD_TYPER, typer));
        assert(registers@ =~= seq![(Frame::Distributor, GICD_TYPER, typer)]);
        GicTable { registers, written: Vec::new(), fail_writes: false, enabled_system: false, log: Ghost(Seq::empty()) }
    }

    /// What register `offset` of `frame` holds.
    pub fn value(&self, frame: Frame, offset: usize) -> (r: Option<u32>)
        ensures
            r == Some(gic_table_value(self.registers@, frame, offset)),
    {
        let mut i = self.registers.len();
        assert(self.registers@.take(i as int) =~= self.registers@);
        while i > 0
            invariant
                i <= self.registers@.len(),
                gic_table_value(self.registers@, frame, offset) == gic_table_value(
                    self.registers@.take(i as int),
                    frame,
                    offset,
                ),
            decreases i,
        {
            let entry = self.registers[i - 1];
            assert(self.registers@.take(i as int).drop_last() =~= self.registers@.take(i - 1));
            if entry.0 == frame && entry.1 == offset {
                return Some(entry.2);
            }
            i = i - 1;
        }
        Some(0)
    }
}

impl GicRegisters for GicTable {
    open spec fn register(&self, frame: Frame, offset: usize) -> Option<u32> {
        Some(gic_table_value(self.registers@, frame, offset))
    }

    open spec fn writes(&self) -> Seq<GicWrite> {
        self.log@
    }

    fn read_u32(&self, frame: Frame, offset: usize) -> (r: Option<u32>) {
        self.value(frame, offset)
    }

    fn write_u32(&mut self, frame: Frame, offset: usize, value: u32) -> (r: bool) {
        if self.fail_writes {
            proof {
                self.log@ = self.log@.push(GicWrite::Word(frame, offset, value, false));
            }
            return false;
        }
        self.registers.push((frame, offset, value));
        self.written.push((frame, offset, value));
        proof {
            self.log@ = self.log@.push(GicWrite::Word(frame, offset, value, true));
        }
        true
    }

    fn write_u8(&mut self, frame: Frame, offset: usize, value: u8) -> (r: bool) {
        if self.fail_writes {
            proof {
                self.log@ = self.log@.push(GicWrite::Byte(frame, offset, value, false));
            }
            return false;
        }
        self.registers.push((frame, offset, value as u32));
        self.written.push((frame, offset, value as u32));
        proof {
            self.log@ = self.log@.push(GicWrite::Byte(frame, offset, value, true));
        }
        true
    }

    fn enable_system_registers(&mut self) -> (r: bool) {
        self.enabled_system = true;
        proof {
            self.log@ = self.log@.push(GicWrite::SystemRegisters(true));
        }
        true
    }
}

/// The same write refused.
pub open spec fn refused_write(w: GicWrite) -> GicWrite {
    match w {
        GicWrite::Word(f, o, v, _) => GicWrite::Word(f, o, v, false),
        GicWrite::Byte(f, o, v, _) => GicWrite::Byte(f, o, v, false),
        GicWrite::SystemRegisters(_) => GicWrite::SystemRegisters(false),
    }
}

/// The writes a GICv2 set-up for the timer line `intid` makes, all accepted, on a
/// distributor with `count` lines, once its configuration register for the line read
/// as `config`: the distributor off, every line disabled, the line level-triggered at
/// middle priority, group 0 on, then the CPU interface off, every priority accepted,
/// no binary point, and on.
pub open spec fn v2_writes(count: u32, intid: u32, config: u32) -> Seq<GicWrite> {
    let registers = (count + 31) / 32;
    let shift = ((intid % 16) * 2) as u32;
    seq![GicWrite::Word(Frame::Distributor, GICD_CTLR, 0, true)] + Seq::new(
        registers as nat,
        |i: int| GicWrite::Word(Frame::Distributor, (GICD_ICENABLER + i * 4) as usize, u32::MAX, true),
    ) + seq![
        GicWrite::Word(Frame::Distributor, (GICD_ICFGR + (intid / 16) * 4) as usize, config & !(3u32 << shift), true),
        GicWrite::Byte(Frame::Distributor, (GICD_IPRIORITYR + intid) as usize, 0x80, true),
        GicWrite::Word(Frame::Distributor, GICD_CTLR, GICD_ENABLE_GROUP0, true),
        GicWrite::Word(Frame::CpuInterface, GICC_CTLR, 0, true),
        GicWrite::Byte(Frame::CpuInterface, GICC_PMR, 0xff, true),
        GicWrite::Byte(Frame::CpuInterface, GICC_BPR, 0, true),
        GicWrite::Word(Frame::CpuInterface, GICC_CTLR, GICD_ENABLE_GROUP0, true),
    ]
}

/// `log` is the writes of `plan` up to its `k`-th, that one refused.
pub open spec fn refused_at(log: Seq<GicWrite>, plan: Seq<GicWrite>, k: int) -> bool {
    1 <= k <= plan.len() && log == plan.take(k - 1).push(refused_write(plan[k - 1]))
}

/// What a GICv2 set-up for line `intid` wrote, `log`, with its answer `r`, given the
/// type register's answer `typer`: nothing when the type register could not be read or
/// the distributor has no such line; otherwise all of `v2_writes` on success, and on
/// failure its writes up to a refused one, or up to the disabled lines when the line's
/// configuration register could not be read.
pub open spec fn v2_outcome(typer: Option<u32>, intid: u32, log: Seq<GicWrite>, r: bool) -> bool {
    match typer {
        None => !r && log.len() == 0,
        Some(t) => {
            let count = ((t & 0x1f) + 1) * 32;
            if intid >= count {
                !r && log.len() == 0
            } else {
                &&& r ==> exists|config: u32| log == #[trigger] v2_writes(count as u32, intid, config)
                &&& !r ==> (log == v2_writes(count as u32, intid, 0).take(1 + (count + 31) / 32) || exists|
                    config: u32,
                    k: int,
                | #[trigger] refused_at(log, v2_writes(count as u32, intid, config), k))
            }
        },
    }
}

/// The description names GICv2 (with a CPU interface) or GICv3 (with a redistributor),
/// a distributor, and a timer interrupt above the SGIs.
pub open spec fn info_usable(info: InterruptInfo) -> bool {
    &&& (info.gic_version == 2 || info.gic_version == 3)
    &&& info.gic_distributor != 0
    &&& 16 <= info.timer_irq < MAX_INTERRUPTS
    &&& info.gic_version == 2 ==> info.gic_cpu_interface != 0
    &&& info.gic_version == 3 ==> info.gic_redistributor != 0
}

pub fn check_info(info: InterruptInfo) -> (r: bool)
    ensures
        r == info_usable(info),
{
    if !(info.gic_version == 2 || info.gic_version == 3) || info.gic_distributor == 0 || info.timer_irq < 16
        || info.timer_irq >= MAX_INTERRUPTS {
        return false;
    }
    if info.gic_version == 2 {
        info.gic_cpu_interface != 0
    } else {
        info.gic_redistributor != 0
    }
}

/// The interrupt lines GICD_TYPER reports: 32 per unit of its low five bits plus one.
pub fn interrupt_count(typer: u32) -> (r: u32)
    ensures
        r == ((typer & 0x1f) + 1) * 32,
        r <= MAX_INTERRUPTS,
{
    assert(typer & 0x1f <= 31) by (bit_vector);
    ((typer & 0x1f) + 1) * 32
}

/// The configuration register holding interrupt `intid` from `base`, and the shift of
/// its two bits.
pub fn config_location(base: usize, intid: u32) -> (r: (usize, usize))
    requires
        intid < MAX_INTERRUPTS,
        base <= 0x1000,
    ensures
        r == ((base + (intid / 16) * 4) as usize, ((intid % 16) * 2) as usize),
{
    (base + (intid as usize / 16) * 4, (intid as usize % 16) * 2)
}

/// A configuration word with interrupt `intid`'s bits cleared: level-triggered.
pub fn level_triggered(config: u32, shift: usize) -> (r: u32)
    requires
        shift < 32,
    ensures
        r == config & !(3u32 << shift as u32),
{
    config & !(3u32 << shift as u32)
}

/// Prepares a GICv2 distributor and CPU interface for the timer interrupt: all lines
/// disabled, the timer line level-triggered at middle priority, group 0 on, and the CPU
/// interface accepting every priority. False when a register access fails or the timer
/// line is beyond what the distributor implements.
pub fn init_v2<G: GicRegisters>(regs: &mut G, intid: u32) -> (r: bool)
    requires
        intid < MAX_INTERRUPTS,
    ensures
        final(regs).writes().len() >= old(regs).writes().len(),
        final(regs).writes().take(old(regs).writes().len() as int) == old(regs).writes(),
        v2_outcome(
            old(regs).register(Frame::Distributor, GICD_TYPER),
            intid,
            final(regs).writes().skip(old(regs).writes().len() as int),
            r,
        ),
{
    let ghost w0 = regs.writes();
    proof {
        lemma_log_split(w0, Seq::empty());
    }
    let typer = match regs.read_u32(Frame::Distributor, GICD_TYPER) {
        Some(t) => t,
        None => return false,
    };
    let count = interrupt_count(typer);
    if count > MAX_INTERRUPTS || intid >= count {
        return false;
    }
    let ghost plan0 = v2_writes(count, intid, 0);
    let registers = (count as usize + 31) / 32;
    assert(registers <= 32);
    assert(plan0.len() == registers + 8);
    let ghost before = regs.writes();
    let ok = regs.write_u32(Frame::Distributor, GICD_CTLR, 0);
    proof {
        lemma_next_write(w0, before, regs.writes(), plan0, 0, ok);
    }
    if !ok {
        proof {
            lemma_log_split(w0, regs.writes().skip(w0.len() as int));
        }
        return false;
    }
    let mut index: usize = 0;
    while index < registers
        invariant
            index <= registers,
            registers <= 32,
            registers == (count + 31) / 32,
            plan0 == v2_writes(count, intid, 0),
            plan0.len() == registers + 8,
            w0 == old(regs).writes(),
            regs.writes() == w0 + plan0.take(1 + index),
            old(regs).register(Frame::Distributor, GICD_TYPER) == Some(typer),
            count == ((typer & 0x1f) + 1) * 32,
            intid < count,
        decreases registers - index,
    {
        let ghost before = regs.writes();
        let ok = regs.write_u32(Frame::Distributor, GICD_ICENABLER + index * 4, u32::MAX);
        proof {
            lemma_next_write(w0, before, regs.writes(), plan0, 1 + index, ok);
        }
        if !ok {
            proof {
                lemma_log_split(w0, regs.writes().skip(w0.len() as int));
                assert(regs.writes() =~= w0 + regs.writes().skip(w0.len() as int));
            }
            return false;
        }
        index = index + 1;
    }
    let (config_offset, config_shift) = config_location(GICD_ICFGR, intid);
    let config = match regs.read_u32(Frame::Distributor, config_offset) {
        Some(c) => c,
        None => {
            proof {
                lemma_log_split(w0, plan0.take(1 + registers));
            }
            return false;
        },
    };
    let ghost plan = v2_writes(count, intid, config);
    proof {
        assert(plan.take(1 + registers) =~= plan0.take(1 + registers));
        assert(plan.len() == registers + 8);
    }
    let steps: [(bool, usize, u32); 7] = [
        (false, config_offset, level_triggered(config, config_shift)),
        (true, GICD_IPRIORITYR + intid as usize, 0x80),
        (false, GICD_CTLR, GICD_ENABLE_GROUP0),
        (false, GICC_CTLR, 0),
        (true, GICC_PMR, 0xff),
        (true, GICC_BPR, 0),
        (false, GICC_CTLR, GICD_ENABLE_GROUP0),
    ];
    let mut step: usize = 0;
    while step < 7
        invariant
            step <= 7,
            registers <= 32,
            plan == v2_writes(count, intid, config),
            plan.len() == registers + 8,
            w0 == old(regs).writes(),
            regs.writes() == w0 + plan.take(1 + registers + step),
            old(regs).register(Frame::Distributor, GICD_TYPER) == Some(typer),
            count == ((typer & 0x1f) + 1) * 32,
            intid < count,
            registers == (count + 31) / 32,
            forall|k: int| 0 <= k < 7 ==> plan[1 + registers + k] == (if #[trigger] steps@[k].0 {
                GicWrite::Byte(if k < 3 { Frame::Distributor } else { Frame::CpuInterface }, steps@[k].1, steps@[k].2 as u8, true)
            } else {
                GicWrite::Word(if k < 3 { Frame::Distributor } else { Frame::CpuInterface }, steps@[k].1, steps@[k].2, true)
            }),
            forall|k: int| 0 <= k < 7 && #[trigger] steps@[k].0 ==> steps@[k].2 < 256,
        decreases 7 - step,
    {
        let (byte, offset, value) = steps[step];
        let frame = if step < 3 { Frame::Distributor } else { Frame::CpuInterface };
        let ghost before = regs.writes();
        let ok = if byte {
            regs.write_u8(frame, offset, value as u8)
        } else {
            regs.write_u32(frame, offset, value)
        };
        proof {
            lemma_next_write(w0, before, regs.writes(), plan, 1 + registers + step, ok);
        }
        if !ok {
            proof {
                lemma_log_split(w0, regs.writes().skip(w0.len() as int));
                assert(regs.writes() =~= w0 + regs.writes().skip(w0.len() as int));
            }
            return false;
        }
        step = step + 1;
    }
    proof {
        assert(plan.take(plan.len() as int) =~= plan);
        lemma_log_split(w0, plan);
        let c2 = (((typer & 0x1f) + 1) * 32) as u32;
        assert(c2 == count);
        assert(regs.writes().skip(w0.len() as int) == v2_writes(c2, intid, config));
    }
    true
}

/// The writes after a starting log `w0` can be told apart from it.
proof fn lemma_log_split(w0: Seq<GicWrite>, tail: Seq<GicWrite>)
    ensures
        (w0 + tail).len() >= w0.len(),
        (w0 + tail).take(w0.len() as int) == w0,
        (w0 + tail).skip(w0.len() as int) == tail,
{
    assert((w0 + tail).take(w0.len() as int) =~= w0);
    assert((w0 + tail).skip(w0.len() as int) =~= tail);
}

/// One more write of a plan: accepted, the plan goes one step further; refused, the
/// log ends with that write refused.
proof fn lemma_next_write(
    w0: Seq<GicWrite>,
    before: Seq<GicWrite>,
    after: Seq<GicWrite>,
    plan: Seq<GicWrite>,
    m: int,
    ok: bool,
)
    requires
        0 <= m < plan.len(),
        before == w0 + plan.take(m),
        after == before.push(if ok { plan[m] } else { refused_write(plan[m]) }),
    ensures
        ok ==> after == w0 + plan.take(m + 1),
        !ok ==> refused_at(after.skip(w0.len() as int), plan, m + 1),
{
    if ok {
        assert(after =~= w0 + plan.take(m + 1));
    } else {
        assert(after.skip(w0.len() as int) =~= plan.take(m).push(refused_write(plan[m])));
    }
}

/// Prepares a GICv3 for the timer, a private interrupt: the redistributor is woken
/// (within a bounded wait), its lines put in group 1 and disabled, the timer line given
/// middle priority and level triggering, group 1 enabled at the distributor, and the
/// system register interface turned on. False when an access fails, the wait runs out,
/// or the timer line is not a private one.
pub fn init_v3<G: GicRegisters>(regs: &mut G, intid: u32) -> (r: bool)
    requires
        intid < MAX_INTERRUPTS,
    ensures
        r ==> intid < 32,
        final(regs).writes().len() >= old(regs).writes().len(),
        final(regs).writes().take(old(regs).writes().len() as int) == old(regs).writes(),
        v3_outcome(
            old(regs).register(Frame::Distributor, GICD_TYPER),
            old(regs).register(Frame::RedistributorControl, GICR_WAKER),
            intid,
            final(regs).writes().skip(old(regs).writes().len() as int),
            r,
        ),
{
    let ghost w0 = regs.writes();
    proof {
        lemma_log_split(w0, Seq::empty());
    }
    let typer = match regs.read_u32(Frame::Distributor, GICD_TYPER) {
        Some(t) => t,
        None => return false,
    };
    let count = interrupt_count(typer);
    if count > MAX_INTERRUPTS || intid >= 32 {
        return false;
    }
    let waker = match regs.read_u32(Frame::RedistributorControl, GICR_WAKER) {
        Some(w) => w,
        None => return false,
    };
    let ghost plan0 = v3_writes(intid, waker, 0);
    let ghost before = regs.writes();
    let ok = regs.write_u32(Frame::RedistributorControl, GICR_WAKER, waker & !2u32);
    proof {
        lemma_next_write(w0, before, regs.writes(), plan0, 0, ok);
    }
    if !ok {
        proof {
            lemma_log_split(w0, regs.writes().skip(w0.len() as int));
            assert(regs.writes() =~= w0 + regs.writes().skip(w0.len() as int));
        }
        return false;
    }
    let ghost after_wake = regs.writes();
    let mut spins: usize = 0;
    while spins < WAKER_SPINS
        invariant
            spins <= WAKER_SPINS,
            regs.writes() == after_wake,
        decreases WAKER_SPINS - spins,
    {
        match regs.read_u32(Frame::RedistributorControl, GICR_WAKER) {
            Some(state) => if state & 4 == 0 {
                break;
            },
            None => {},
        }
        spins = spins + 1;
    }
    if spins == WAKER_SPINS {
        proof {
            lemma_log_split(w0, plan0.take(1));
        }
        return false;
    }
    let steps: [(bool, Frame, usize, u32); 4] = [
        (false, Frame::Distributor, GICD_CTLR, 0),
        (false, Frame::RedistributorSgi, GICR_IGROUPR0, u32::MAX),
        (false, Frame::RedistributorSgi, GICR_ICENABLER0, u32::MAX),
        (true, Frame::RedistributorSgi, GICR_IPRIORITYR + intid as usize, 0x80),
    ];
    let mut step: usize = 0;
    while step < 4
        invariant
            step <= 4,
            intid < 32,
            plan0 == v3_writes(intid, waker, 0),
            w0 == old(regs).writes(),
            regs.writes() == w0 + plan0.take(1 + step),
            old(regs).register(Frame::Distributor, GICD_TYPER) == Some(typer),
            old(regs).register(Frame::RedistributorControl, GICR_WAKER) == Some(waker),
            forall|k: int| 0 <= k < 4 ==> plan0[1 + k] == (if #[trigger] steps@[k].0 {
                GicWrite::Byte(steps@[k].1, steps@[k].2, steps@[k].3 as u8, true)
            } else {
                GicWrite::Word(steps@[k].1, steps@[k].2, steps@[k].3, true)
            }),
            forall|k: int| 0 <= k < 4 && #[trigger] steps@[k].0 ==> steps@[k].3 < 256,
        decreases 4 - step,
    {
        let (byte, frame, offset, value) = steps[step];
        let ghost before = regs.writes();
        let ok = if byte {
            regs.write_u8(frame, offset, value as u8)
        } else {
            regs.write_u32(frame, offset, value)
        };
        proof {
            lemma_next_write(w0, before, regs.writes(), plan0, 1 + step, ok);
        }
        if !ok {
            proof {
                lemma_log_split(w0, regs.writes().skip(w0.len() as int));
                assert(regs.writes() =~= w0 + regs.writes().skip(w0.len() as int));
            }
            return false;
        }
        step = step + 1;
    }
    let (config_offset, config_shift) = config_location(GICR_ICFGR, intid);
    let config = match regs.read_u32(Frame::RedistributorSgi, config_offset) {
        Some(c) => c,
        None => {
            proof {
                lemma_log_split(w0, plan0.take(5));
            }
            return false;
        },
    };
    let ghost plan = v3_writes(intid, waker, config);
    proof {
        assert(plan.take(5) =~= plan0.take(5));
    }
    let ghost b1 = regs.writes();
    let ok = regs.write_u32(Frame::RedistributorSgi, config_offset, level_triggered(config, config_shift));
    proof {
        lemma_next_write(w0, b1, regs.writes(), plan, 5, ok);
    }
    if !ok {
        proof {
            lemma_log_split(w0, regs.writes().skip(w0.len() as int));
            assert(regs.writes() =~= w0 + regs.writes().skip(w0.len() as int));
        }
        return false;
    }
    let ghost b2 = regs.writes();
    let ok = regs.write_u32(Frame::Distributor, GICD_CTLR, GICD_ENABLE_GROUP1);
    proof {
        lemma_next_write(w0, b2, regs.writes(), plan, 6, ok);
    }
    if !ok {
        proof {
            lemma_log_split(w0, regs.writes().skip(w0.len() as int));
            assert(regs.writes() =~= w0 + regs.writes().skip(w0.len() as int));
        }
        return false;
    }
    let ghost b3 = regs.writes();
    let ok = regs.enable_system_registers();
    proof {
        lemma_next_write(w0, b3, regs.writes(), plan, 7, ok);
    }
    if !ok {
        proof {
            lemma_log_split(w0, regs.writes().skip(w0.len() as int));
            assert(regs.writes() =~= w0 + regs.writes().skip(w0.len() as int));
        }
        return false;
    }
    proof {
        assert(plan.take(8) =~= plan);
        lemma_log_split(w0, plan);
    }
    true
}

/// The writes a GICv3 set-up for the private line `intid` makes, all accepted, when the
/// waker read as `waker` and the line's configuration register as `config`: the
/// redistributor woken, the distributor off, the private lines put in group 1 and
/// disabled, the line at middle priority and level-triggered, group 1 on, and the system
/// register interface on.
pub open spec fn v3_writes(intid: u32, waker: u32, config: u32) -> Seq<GicWrite> {
    let shift = ((intid % 16) * 2) as u32;
    seq![
        GicWrite::Word(Frame::RedistributorControl, GICR_WAKER, waker & !2u32, true),
        GicWrite::Word(Frame::Distributor, GICD_CTLR, 0, true),
        GicWrite::Word(Frame::RedistributorSgi, GICR_IGROUPR0, u32::MAX, true),
        GicWrite::Word(Frame::RedistributorSgi, GICR_ICENABLER0, u32::MAX, true),
        GicWrite::Byte(Frame::RedistributorSgi, (GICR_IPRIORITYR + intid) as usize, 0x80, true),
        GicWrite::Word(Frame::RedistributorSgi, (GICR_ICFGR + (intid / 16) * 4) as usize, config & !(3u32 << shift), true),
        GicWrite::Word(Frame::Distributor, GICD_CTLR, GICD_ENABLE_GROUP1, true),
        GicWrite::SystemRegisters(true),
    ]
}

/// What a GICv3 set-up for line `intid` wrote, `log`, with its answer `r`, given the
/// type and waker registers' answers: nothing when either could not be read or the
/// line is not a private one; otherwise all of `v3_writes` on success, and on failure
/// its writes up to a refused one, or up to the wake-up when the redistributor did not
/// wake in time, or up to the priority when the line's configuration register could
/// not be read.
pub open spec fn v3_outcome(typer: Option<u32>, waker: Option<u32>, intid: u32, log: Seq<GicWrite>, r: bool) -> bool {
    if typer is None || intid >= 32 || waker is None {
        !r && log.len() == 0
    } else {
        let w = waker->0;
        &&& r ==> exists|config: u32| log == #[trigger] v3_writes(intid, w, config)
        &&& !r ==> (log == v3_writes(intid, w, 0).take(1) || log == v3_writes(intid, w, 0).take(5) || exists|
            config: u32,
            k: int,
        | #[trigger] refused_at(log, v3_writes(intid, w, config), k))
    }
}

/// The controller's state as the kernel keeps it.
#[derive(Clone, Copy, Debug, PartialEq, Eq, Structural)]
pub struct Gic {
    pub status: Status,
}

pub open spec fn reset_status(s: Status) -> Status {
    Status { ack_count: 0, last_ack: SPURIOUS_INTID, ready: false, timer_enabled: false, ..s }
}

impl Gic {
    pub fn new() -> (r: Self)
        ensures
            r.status == (Status {
                version: 0,
                distributor: 0,
                cpu_interface: 0,
                redistributor: 0,
                timer_intid: 0,
                ack_count: 0,
                last_ack: SPURIOUS_INTID,
                ready: false,
                timer_enabled: false,
            }),
    {
        Gic {
            status: Status {
                version: 0,
                distributor: 0,
                cpu_interface: 0,
                redistributor: 0,
                timer_intid: 0,
                ack_count: 0,
                last_ack: SPURIOUS_INTID,
                ready: false,
                timer_enabled: false,
            },
        }
    }

    /// Sets the controller up from the loader's description: the description is checked,
    /// the version's initialisation run, and on success the controller is ready with the
    /// description recorded. Counters and the timer are reset either way.
    pub fn init<G: GicRegisters>(&mut self, regs: &mut G, info: InterruptInfo) -> (r: Option<Status>)
        ensures
            !info_usable(info) ==> r is None && final(self).status == reset_status(old(self).status),
            r is None ==> final(self).status == reset_status(old(self).status),
            r matches Some(s) ==> info_usable(info) && s == final(self).status && s == (Status {
                version: info.gic_version,
                distributor: info.gic_distributor,
                cpu_interface: info.gic_cpu_interface,
                redistributor: info.gic_redistributor,
                timer_intid: info.timer_irq,
                ack_count: 0,
                last_ack: SPURIOUS_INTID,
                ready: true,
                timer_enabled: false,
            }),
    {
        self.status = Status { ack_count: 0, last_ack: SPURIOUS_INTID, ready: false, timer_enabled: false, ..self.status };
        if !check_info(info) {
            return None;
        }
        let ok = if info.gic_version == 2 {
            init_v2(regs, info.timer_irq)
        } else {
            init_v3(regs, info.timer_irq)
        };
        if !ok {
            return None;
        }
        self.status = Status {
            version: info.gic_version,
            distributor: info.gic_distributor,
            cpu_interface: info.gic_cpu_interface,
            redistributor: info.gic_redistributor,
            timer_intid: info.timer_irq,
            ack_count: 0,
            last_ack: SPURIOUS_INTID,
            ready: true,
            timer_enabled: false,
        };
        Some(self.status)
    }

    /// Records an interrupt acknowledge register value: the interrupt, unless it is the
    /// spurious one (or the controller is not ready, when nothing is recorded).
    pub fn acknowledged(&mut self, raw: u32) -> (r: Option<u32>)
        ensures
            !old(self).status.ready ==> r is None && *final(self) == *old(self),
            old(self).status.ready ==> {
                &&& final(self).status == (Status {
                    ack_count: if old(self).status.ack_count == u64::MAX { 0 } else { (old(self).status.ack_count + 1) as u64 },
                    last_ack: raw & 0x3ff,
                    ..old(self).status
                })
                &&& r == (if raw & 0x3ff < SPURIOUS_INTID { Some(raw & 0x3ff) } else { None })
            },
    {
        if !self.status.ready {
            return None;
        }
        let intid = raw & 0x3ff;
        self.status.ack_count = self.status.ack_count.wrapping_add(1);
        self.status.last_ack = intid;
        if intid < SPURIOUS_INTID {
            Some(intid)
        } else {
            None
        }
    }

    /// Enables the timer's line: at the distributor for GICv2 (when it implements the
    /// line), at the redistributor for GICv3.
    pub fn enable_timer<G: GicRegisters>(&mut self, regs: &mut G) -> (r: bool)
        requires
            old(self).status.timer_intid < MAX_INTERRUPTS,
        ensures
            !old(self).status.ready ==> !r,
            final(self).status == (Status { timer_enabled: old(self).status.timer_enabled || r, ..old(self).status }),
            ({
                let intid = old(self).status.timer_intid;
                let write = if old(self).status.version == 2 {
                    GicWrite::Word(
                        Frame::Distributor,
                        (GICD_ISENABLER + (intid / 32) * 4) as usize,
                        1u32 << (intid % 32),
                        r,
                    )
                } else {
                    GicWrite::Word(Frame::RedistributorSgi, GICR_ISENABLER0, 1u32 << (intid % 32), r)
                };
                let lines = match old(regs).register(Frame::Distributor, GICD_TYPER) {
                    Some(t) => ((t & 0x1f) + 1) * 32,
                    None => 0,
                };
                if !old(self).status.ready || (old(self).status.version == 2 && lines <= intid) {
                    final(regs).writes() == old(regs).writes() && !r
                } else {
                    final(regs).writes() == old(regs).writes().push(write)
                }
            }),
    {
        if !self.status.ready {
            return false;
        }
        let intid = self.status.timer_intid;
        let enabled = if self.status.version == 2 {
            match regs.read_u32(Frame::Distributor, GICD_TYPER) {
                None => false,
                Some(typer) => {
                    let count = interrupt_count(typer);
                    count > intid && regs.write_u32(
                        Frame::Distributor,
                        GICD_ISENABLER + (intid as usize / 32) * 4,
                        1u32 << (intid % 32),
                    )
                },
            }
        } else {
            regs.write_u32(Frame::RedistributorSgi, GICR_ISENABLER0, 1u32 << (intid % 32))
        };
        if enabled {
            self.status.timer_enabled = true;
        }
        enabled
    }

    pub fn timer_enabled(&self) -> (r: bool)
        ensures
            r == self.status.timer_enabled,
    {
        self.status.timer_enabled
    }
}

/// Checks that an empty description is refused.
pub fn contract_self_check() {
    let info = InterruptInfo { gic_version: 0, gic_distributor: 0, gic_cpu_interface: 0, gic_redistributor: 0, timer_irq: 0 };
    let usable = check_info(info);
    assert(!usable);
}

} // verus!
