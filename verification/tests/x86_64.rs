use lib::arch::x86_64::tables::{IdtEntry, INTERRUPT_GATE, KERNEL_CODE_SELECTOR};
use lib::arch::x86_64::tables::tss_descriptor;
use lib::arch::x86_64::tables::{handler_line, idt_handler, initial_gdt, Handler};
use lib::arch::x86_64::tables::{kernel_stack_top, syscall_stack_top, USER_CODE_SELECTOR, USER_DATA_SELECTOR};
use lib::arch::x86_64::user::{probe_code, ProbeState, ARGV_OFFSET};
use lib::arch::x86_64::apic::{prepare_timer, Status, TimerHardware, APIC_TIMER_CURRENT, APIC_TIMER_INITIAL, HPET_MAIN_COUNTER};
use lib::arch::x86_64::apic::{
    calibrate, calibration_period, decode_status, hpet_base_from_rsdp, hpet_frequency,
    timer_initial_count, x2apic_msr, TimerCalibration, TimerState,
};
use lib::arch::x86_64::{
    disable_legacy_irq, enable_legacy_irq, end_legacy_interrupt, end_timer_interrupt, init_pit,
    pit_divisor, remap_pic, supports_lazy_pages, timer_frequency_hz, timer_source, DirectMap,
    DIRECT_MAP_BASE,
};

#[test]
fn apic_timer_counts() {
    assert_eq!(timer_initial_count(1_000_000, 100), 10_000);
    assert_eq!(timer_initial_count(99, 100), 1);
    assert_eq!(timer_initial_count(u64::MAX, 1), u32::MAX);
    assert_eq!(timer_initial_count(500, 0), 500);
}

#[test]
fn apic_calibration() {
    assert_eq!(hpet_frequency(0), None);
    assert_eq!(hpet_frequency(69_841_279u64 << 32), Some(14_318_179));
    assert_eq!(calibration_period(14_318_179), 143_181);
    assert_eq!(calibration_period(50), 1);
    assert_eq!(calibrate(1000, 10, 9, 5, 100), None);
    assert_eq!(calibrate(1000, 10, 10, 0, 100), None);
    assert_eq!(
        calibrate(1000, 10, 10, 50_000, 100),
        Some(TimerCalibration { hpet_hz: 1000, apic_timer_hz: 5_000_000, initial_count: 50_000 })
    );
    let mut timer = TimerState::new();
    assert_eq!(timer.timer_calibration(), None);
    timer.prepared(calibrate(1000, 10, 10, 50_000, 100));
    assert!(timer.can_enable() && !timer.timer_enabled());
    timer.started();
    assert!(timer.timer_enabled());
    timer.prepared(None);
    assert!(!timer.timer_enabled() && !timer.can_enable());
    assert_eq!(x2apic_msr(0x320), 0x832);
}

#[test]
fn apic_status_decoding() {
    let absent = decode_status(0, 0, 0xfee0_0900, (0, 0, 0), None);
    assert!(!absent.present && !absent.enabled && absent.base == 0);
    let xapic = decode_status(0, 0x200, 0xfee0_0900, (0, 0, 0), Some((0x1ff, 0x0300_0000, 0x50014)));
    assert!(xapic.present && xapic.enabled && !xapic.x2apic_enabled && xapic.software_enabled);
    assert_eq!((xapic.base, xapic.id, xapic.version), (0xfee0_0000, 3, 0x14));
    let x2 = decode_status(0x20_0000, 0x200, 0xfee0_0d00, (0x100, 7, 0x1_0015), None);
    assert!(x2.x2apic_enabled && x2.software_enabled);
    assert_eq!((x2.id, x2.version), (7, 0x15));
    let failed = decode_status(0, 0x200, 0xfee0_0800, (0, 0, 0), None);
    assert!(failed.enabled && !failed.software_enabled && failed.id == 0);
}

fn with_checksum(mem: &mut [u8], at: usize, length: usize, checksum_at: usize) {
    mem[checksum_at] = 0;
    let sum = mem[at..at + length].iter().fold(0u8, |a, b| a.wrapping_add(*b));
    mem[checksum_at] = 0u8.wrapping_sub(sum);
}

#[test]
fn hpet_found_through_rsdt() {
    let mut mem = vec![0u8; 0x400];
    // RSDP at 0x40, RSDT at 0x100, HPET at 0x200.
    mem[0x40..0x48].copy_from_slice(b"RSD PTR ");
    mem[0x40 + 16..0x40 + 20].copy_from_slice(&0x100u32.to_le_bytes());
    with_checksum(&mut mem, 0x40, 20, 0x40 + 8);
    mem[0x100..0x104].copy_from_slice(b"RSDT");
    mem[0x104..0x108].copy_from_slice(&40u32.to_le_bytes());
    mem[0x124..0x128].copy_from_slice(&0x200u32.to_le_bytes());
    with_checksum(&mut mem, 0x100, 40, 0x109);
    mem[0x200..0x204].copy_from_slice(b"HPET");
    mem[0x204..0x208].copy_from_slice(&56u32.to_le_bytes());
    mem[0x200 + 44..0x200 + 52].copy_from_slice(&0xfed0_0000u64.to_le_bytes());
    with_checksum(&mut mem, 0x200, 56, 0x209);
    assert_eq!(hpet_base_from_rsdp(&mem, 0x40), Some(0xfed0_0000));
    assert_eq!(hpet_base_from_rsdp(&mem, 0x41), None);
    let mut broken = mem.clone();
    broken[0x210] ^= 1;
    assert_eq!(hpet_base_from_rsdp(&broken, 0x40), None);
    assert_eq!(hpet_base_from_rsdp(&mem[..0x230], 0x40), None);
}

#[test]
fn pic_masks_and_eoi() {
    assert_eq!(enable_legacy_irq(1, 0xff, 0xff), (0xfd, 0xff));
    assert_eq!(enable_legacy_irq(12, 0xff, 0xff), (0xfb, 0xef));
    assert_eq!(disable_legacy_irq(0, 0x00, 0x00), (0x01, 0x00));
    assert_eq!(disable_legacy_irq(9, 0x00, 0x00), (0x00, 0x02));
    assert_eq!(end_legacy_interrupt(3), vec![(0x20, 0x20)]);
    assert_eq!(end_legacy_interrupt(12), vec![(0xa0, 0x20), (0x20, 0x20)]);
    assert_eq!(end_timer_interrupt(true), vec![]);
    assert_eq!(end_timer_interrupt(false), vec![(0x20, 0x20)]);
    let remap = remap_pic(0xff, 0xfe);
    assert_eq!(remap.len(), 18);
    assert_eq!(remap[16], (0x21, 0xfc));
    assert_eq!(remap[17], (0xa1, 0xfe));
}

#[test]
fn pit_and_timer_source() {
    assert_eq!(pit_divisor(100), 11_931);
    assert_eq!(pit_divisor(0), u16::MAX);
    assert_eq!(pit_divisor(18), u16::MAX);
    assert_eq!(init_pit(100), vec![(0x43, 0x36), (0x40, (11_931 % 256) as u8), (0x40, (11_931 / 256) as u8)]);
    assert_eq!(timer_source(true), "apic");
    assert_eq!(timer_source(false), "pit");
    assert_eq!(timer_frequency_hz(), None);
    assert!(supports_lazy_pages());
}

#[test]
fn direct_map_translates_both_ways() {
    assert_eq!(DirectMap::size_for(1), Some(0x20_0000));
    assert_eq!(DirectMap::size_for(0x20_0000), Some(0x20_0000));
    assert_eq!(DirectMap::size_for(0), None);
    assert_eq!(DirectMap::size_for(u64::MAX), None);
    let map = DirectMap { ready: true, bytes: 0x40_0000 };
    let v = map.physical_to_virtual(0x1234).unwrap();
    assert_eq!(v, DIRECT_MAP_BASE + 0x1234);
    assert_eq!(map.virtual_to_physical(v), Some(0x1234));
    assert_eq!(map.physical_to_virtual(0x40_0000), None);
    assert_eq!(map.virtual_to_physical(0x1000), None);
    let off = DirectMap { ready: false, bytes: 0x40_0000 };
    assert_eq!(off.physical_to_virtual(0), None);
}

#[test]
fn idt_gates_hold_their_handler() {
    let mut gate = IdtEntry::missing();
    assert_eq!(gate.handler_address(), 0);
    gate.set_addr(0xffff_8000_0012_3456);
    assert_eq!(gate.offset_low, 0x3456);
    assert_eq!(gate.offset_mid, 0x0012);
    assert_eq!(gate.offset_high, 0xffff_8000);
    assert_eq!(gate.selector, KERNEL_CODE_SELECTOR);
    assert_eq!(gate.options, INTERRUPT_GATE);
    assert_eq!(gate.handler_address(), 0xffff_8000_0012_3456);
}

#[test]
fn tss_descriptor_words() {
    let (low, high) = tss_descriptor(0xffff_8000_1234_5678, 0x67);
    assert_eq!(high, 0xffff_8000);
    assert_eq!(low & 0xffff, 0x67);
    assert_eq!((low >> 16) & 0xff_ffff, 0x34_5678);
    assert_eq!((low >> 56) & 0xff, 0x12);
    assert_eq!((low >> 40) & 0xff, 0x89);
    assert_eq!(low, 0x1200_8934_5678_0067);
}

#[test]
fn idt_vector_assignment() {
    assert_eq!(idt_handler(0), Handler::DivideError);
    assert_eq!(idt_handler(3), Handler::Breakpoint);
    assert_eq!(idt_handler(6), Handler::InvalidOpcode);
    assert_eq!(idt_handler(8), Handler::DoubleFault);
    assert_eq!(idt_handler(13), Handler::GeneralProtection);
    assert_eq!(idt_handler(14), Handler::PageFault);
    assert_eq!(idt_handler(20), Handler::Exception);
    assert_eq!(idt_handler(32), Handler::Timer);
    assert_eq!(idt_handler(33), Handler::Keyboard);
    assert_eq!(idt_handler(44), Handler::Mouse);
    assert_eq!(idt_handler(34), Handler::LegacyIrq(2));
    assert_eq!(idt_handler(47), Handler::LegacyIrq(15));
    assert_eq!(idt_handler(48), Handler::Spurious);
    assert_eq!(idt_handler(255), Handler::Spurious);
    assert_eq!(handler_line(Handler::Mouse), Some(12));
    assert_eq!(handler_line(Handler::LegacyIrq(9)), Some(9));
    assert_eq!(handler_line(Handler::Timer), None);
    assert_eq!(initial_gdt()[1], 0x00af9a000000ffff);
}

#[test]
fn stacks_and_user_probe() {
    assert_eq!(kernel_stack_top(0x20_0000), 0x28_0000);
    assert_eq!(syscall_stack_top(0x30_0000), 0x38_0000);
    assert_eq!(probe_code().len(), 14);
    let mut probe = ProbeState::new();
    assert_eq!(probe.load_code(&[1]), None);
    assert_eq!(probe.load_argv(&Vec::new(), 0x7000_0000), None);
    assert!(probe.prepared(0x5000, 0x6000));
    assert!(probe.prepared(0x7000, 0x8000));
    assert_eq!(probe.code_frame, 0x5000);
    assert_eq!(probe.load_code(&vec![0x90u8; 4096]).map(|(f, p)| (f, p[4095])), Some((0x5000, 0x90)));
    assert_eq!(probe.load_code(&vec![0u8; 4097]), None);
    let (frame, offset, page) = probe.load_argv(&vec![b"a".to_vec(), b"b".to_vec()], 0x7000_0000).unwrap();
    assert_eq!((frame, offset), (0x6000, ARGV_OFFSET));
    assert_eq!((page[0], page[128], page[160]), (2, b'a', b'b'));
    let context = probe.context(0x40_0000, 0x80_0000, [7; 16]);
    assert!(context.ready);
    assert_eq!((context.rip, context.rsp), (0x40_0000, 0x7f_fff0));
    assert_eq!((context.cs, context.ss), (USER_CODE_SELECTOR, USER_DATA_SELECTOR));
}

/// An HPET whose counter advances by 1000 on every read, and an APIC timer that counts
/// down ten times as fast.
struct FakeTimer {
    hpet_counter: std::cell::Cell<u64>,
    initial_writes: Vec<u32>,
    broken: bool,
}

impl TimerHardware for FakeTimer {
    fn apic_read(&self, register: usize) -> Option<u32> {
        if register == APIC_TIMER_CURRENT {
            Some(u32::MAX - 10 * self.hpet_counter.get() as u32)
        } else {
            Some(0)
        }
    }

    fn apic_write(&mut self, register: usize, value: u32) -> bool {
        if register == APIC_TIMER_INITIAL {
            self.initial_writes.push(value);
        }
        !self.broken
    }

    fn hpet_read(&self, offset: usize) -> Option<u64> {
        if offset == HPET_MAIN_COUNTER {
            let value = self.hpet_counter.get();
            self.hpet_counter.set(value + 1000);
            Some(value)
        } else {
            Some(0)
        }
    }

    fn hpet_write(&mut self, offset: usize, value: u64) -> bool {
        if offset == HPET_MAIN_COUNTER {
            self.hpet_counter.set(value);
        }
        true
    }
}

#[test]
fn timer_preparation() {
    let status = Status {
        present: true,
        x2apic: false,
        x2apic_enabled: false,
        enabled: true,
        software_enabled: true,
        base: 0xfee0_0000,
        id: 0,
        version: 0x14,
    };
    let caps = 69_841_279u64 << 32;
    let mut state = TimerState::new();
    let mut hardware = FakeTimer { hpet_counter: std::cell::Cell::new(5), initial_writes: Vec::new(), broken: false };
    assert_eq!(prepare_timer(&mut state, &mut hardware, Status { software_enabled: false, ..status }, Some(caps), 100), None);
    assert_eq!(prepare_timer(&mut state, &mut hardware, status, None, 100), None);
    assert_eq!(prepare_timer(&mut state, &mut hardware, status, Some(0), 100), None);
    assert!(hardware.initial_writes.is_empty());

    let calibration = prepare_timer(&mut state, &mut hardware, status, Some(caps), 100);
    assert_eq!(
        calibration,
        Some(TimerCalibration { hpet_hz: 14_318_179, apic_timer_hz: 143_181_790, initial_count: 1_431_817 })
    );
    assert_eq!(hardware.initial_writes, vec![u32::MAX, 0]);
    assert_eq!(state.timer_calibration(), calibration);
    assert!(!state.timer_enabled());

    hardware.broken = true;
    assert_eq!(prepare_timer(&mut state, &mut hardware, status, Some(caps), 100), None);
    assert!(state.timer_calibration().is_none());
}
