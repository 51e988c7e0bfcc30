use lib::arch::aarch64::tables::{exception_state, vector_base_level, vectors_aligned, UsercopyLog};
use lib::arch::aarch64::user::{probe_code, ProbeState, ARGV_OFFSET, USER_CODE_BASE, USER_STACK_TOP};
use lib::arch::user_image::{argv_page, code_page, frame_offset};
use lib::arch::aarch64::gic::{
    check_info, config_location, init_v2, init_v3, interrupt_count, level_triggered, Frame, Gic,
    GicTable, InterruptInfo, GICC_CTLR, GICD_CTLR, GICD_ENABLE_GROUP0, GICD_ENABLE_GROUP1,
    GICD_ICFGR, GICD_TYPER, GICR_ICFGR, GICR_WAKER, SPURIOUS_INTID,
};
use lib::arch::aarch64::{
    cpu_id_of, current_el_of, firmware_runtime_context, map_lazy_page, physical_to_virtual,
    runtime_context_usable, supports_lazy_pages, switches_ttbr0, timer_interval, timer_source,
    virtual_to_physical,
};

fn gicv2_info() -> InterruptInfo {
    InterruptInfo {
        gic_version: 2,
        gic_distributor: 0x0800_0000,
        gic_cpu_interface: 0x0801_0000,
        gic_redistributor: 0,
        timer_irq: 30,
    }
}

#[test]
fn arch_helpers() {
    assert_eq!(timer_source(true), "gic");
    assert_eq!(timer_source(false), "poll");
    assert_eq!(timer_interval(62_500_000, 100), 625_000);
    assert_eq!(timer_interval(50, 100), 1);
    assert!(!supports_lazy_pages());
    assert!(!map_lazy_page(0x4000_0000));
    assert_eq!(physical_to_virtual(0x4000_1000), Some(0x4000_1000));
    assert_eq!(virtual_to_physical(0x4000_1000), Some(0x4000_1000));
    assert_eq!(firmware_runtime_context((2, 0x1000, 0x2000), (1, 0x3000, 0x4000)), (2, 0x1000, 0x2000));
    assert_eq!(firmware_runtime_context((2, 0, 0x2000), (1, 0x3000, 0x4000)), (1, 0x3000, 0x4000));
    assert!(runtime_context_usable((1, 0x3000, 0)));
    assert!(!runtime_context_usable((0, 0x3000, 0)));
    assert!(!runtime_context_usable((1, 0, 0)));
    assert!(switches_ttbr0(0x1000, 0x2000));
    assert!(!switches_ttbr0(0x1000, 0x1000));
    assert!(!switches_ttbr0(0, 0x2000));
    assert_eq!(current_el_of(0b1000), 2);
    assert_eq!(current_el_of(0b0100), 1);
    assert_eq!(cpu_id_of(0x8000_0000_0000_0103), 0x103);
}

#[test]
fn gic_register_arithmetic() {
    assert_eq!(interrupt_count(0), 32);
    assert_eq!(interrupt_count(0x1f), 1024);
    assert_eq!(interrupt_count(0xffff_ffe2), 96);
    assert_eq!(config_location(GICD_ICFGR, 30), (GICD_ICFGR + 4, 28));
    assert_eq!(config_location(GICR_ICFGR, 5), (GICR_ICFGR, 10));
    assert_eq!(level_triggered(u32::MAX, 28), 0xcfff_ffff);
    assert_eq!(level_triggered(0x3, 0), 0);
}

#[test]
fn gic_description_checks() {
    assert!(check_info(gicv2_info()));
    assert!(!check_info(InterruptInfo { gic_version: 1, ..gicv2_info() }));
    assert!(!check_info(InterruptInfo { gic_distributor: 0, ..gicv2_info() }));
    assert!(!check_info(InterruptInfo { timer_irq: 15, ..gicv2_info() }));
    assert!(!check_info(InterruptInfo { timer_irq: 1024, ..gicv2_info() }));
    assert!(!check_info(InterruptInfo { gic_cpu_interface: 0, ..gicv2_info() }));
    let v3 = InterruptInfo { gic_version: 3, gic_cpu_interface: 0, gic_redistributor: 0x080a_0000, ..gicv2_info() };
    assert!(check_info(v3));
    assert!(!check_info(InterruptInfo { gic_redistributor: 0, ..v3 }));
}

#[test]
fn gicv2_initialisation() {
    let mut regs = GicTable::new(1);
    assert!(init_v2(&mut regs, 30));
    assert_eq!(regs.written.first(), Some(&(Frame::Distributor, GICD_CTLR, 0)));
    assert_eq!(regs.value(Frame::Distributor, GICD_CTLR), Some(GICD_ENABLE_GROUP0));
    assert_eq!(regs.value(Frame::CpuInterface, GICC_CTLR), Some(GICD_ENABLE_GROUP0));
    assert_eq!(regs.value(Frame::Distributor, 0x180), Some(u32::MAX));
    assert_eq!(regs.value(Frame::Distributor, 0x184), Some(u32::MAX));
    assert_eq!(regs.value(Frame::Distributor, 0x400 + 30), Some(0x80));

    let mut small = GicTable::new(0);
    assert!(!init_v2(&mut small, 40));

    let mut broken = GicTable::new(1);
    broken.fail_writes = true;
    assert!(!init_v2(&mut broken, 30));
}

#[test]
fn gicv3_initialisation() {
    let mut regs = GicTable::new(1);
    assert!(init_v3(&mut regs, 27));
    assert!(regs.enabled_system);
    assert_eq!(regs.value(Frame::RedistributorControl, GICR_WAKER), Some(0));
    assert_eq!(regs.value(Frame::Distributor, GICD_CTLR), Some(GICD_ENABLE_GROUP1));

    let mut shared = GicTable::new(1);
    assert!(!init_v3(&mut shared, 40));
}

#[test]
fn gic_state() {
    let mut gic = Gic::new();
    assert_eq!(gic.acknowledged(30), None);
    assert_eq!(gic.status.ack_count, 0);

    let mut regs = GicTable::new(1);
    let status = gic.init(&mut regs, gicv2_info()).expect("gicv2 initialises");
    assert!(status.ready);
    assert_eq!(status.timer_intid, 30);
    assert_eq!(status.last_ack, SPURIOUS_INTID);
    assert!(!gic.timer_enabled());

    assert!(gic.enable_timer(&mut regs));
    assert!(gic.timer_enabled());
    assert_eq!(regs.value(Frame::Distributor, 0x100), Some(1 << 30));

    assert_eq!(gic.acknowledged(0x1c00 | 30), Some(30));
    assert_eq!(gic.status.ack_count, 1);
    assert_eq!(gic.acknowledged(1023), None);
    assert_eq!(gic.status.ack_count, 2);
    assert_eq!(gic.status.last_ack, 1023);

    let refused = gic.init(&mut regs, InterruptInfo { gic_version: 4, ..gicv2_info() });
    assert_eq!(refused, None);
    assert!(!gic.status.ready);
    assert_eq!(gic.status.ack_count, 0);
    assert!(!gic.timer_enabled());
}

#[test]
fn exception_state_selection() {
    assert!(vectors_aligned(0x4008_0800));
    assert!(!vectors_aligned(0x4008_0400));
    assert_eq!(vector_base_level(1), Some(1));
    assert_eq!(vector_base_level(3), Some(3));
    assert_eq!(vector_base_level(0), None);
    let state = exception_state(1, (0x9600_0045, 0xdead_0000, 0x4008_1234, 0x3c5));
    assert_eq!(state.current_el, 1);
    assert_eq!(state.syndrome, 0x9600_0045);
    assert_eq!(state.fault_address, 0xdead_0000);
    assert_eq!(state.return_address, 0x4008_1234);
    assert_eq!(state.saved_program_status, 0x3c5);
    let none = exception_state(0, (1, 2, 3, 4));
    assert_eq!((none.syndrome, none.fault_address, none.return_address, none.saved_program_status), (0, 0, 0, 0));
    let mut log = UsercopyLog::new();
    assert_eq!(log.last_usercopy_fault(), None);
    log.record_usercopy_fault(state, 0x4008_2000);
    assert_eq!(log.last_usercopy_fault().map(|f| f.recovery_address), Some(0x4008_2000));
    assert_eq!(log.last_usercopy_fault().map(|f| f.exception), Some(state));
}

struct TwoFrames(Vec<u64>);

impl lib::arch::table_memory::FrameAllocator for TwoFrames {
    fn alloc_frame(&mut self) -> Option<u64> {
        self.0.pop()
    }

    fn free_frame(&mut self, _frame: u64) -> bool {
        true
    }
}

#[test]
fn user_probe_progress() {
    let mut probe = ProbeState::new();
    let mut frames = TwoFrames(vec![0x4300_0000, 0x4200_0000]);
    assert_eq!(probe.prepare(&mut frames), Some((0x4200_0000, 0x4300_0000)));
    assert!(probe.planned && probe.payload_ready && !probe.mapped);
    assert_eq!(probe.prepare(&mut frames), None);
    assert_eq!(probe.code_frame, 0x4200_0000);
    assert!(!probe.can_enter());
    assert_eq!(probe.load_code(&[1, 2]), None);
    assert_eq!(probe.load_argv(&vec![b"sh".to_vec()]), None);
    probe.set_mapped(true);
    assert!(probe.can_enter());
    let (frame, page) = probe.load_code(&probe_code()).unwrap();
    assert_eq!(frame, 0x4200_0000);
    assert_eq!(page.len(), 4096);
    assert_eq!(&page[..16], &probe_code()[..]);
    assert_eq!(probe.load_code(&vec![0u8; 5000]), None);
    let (frame, offset, argv) = probe.load_argv(&vec![b"sh".to_vec()]).unwrap();
    assert_eq!((frame, offset), (0x4300_0000, ARGV_OFFSET));
    assert_eq!(argv[0], 1);
    assert_eq!(u64::from_le_bytes(argv[8..16].try_into().unwrap()), USER_STACK_TOP - 256 + 128);
    assert_eq!(&argv[128..130], b"sh");
    assert_eq!(probe.regions(), [(USER_CODE_BASE, 0x4200_0000), (USER_STACK_TOP - 4096, 0x4300_0000)]);
    assert_eq!(probe.probe_finished(7), Some(7));
    assert!(!probe.probed);
    assert_eq!(probe.probe_finished(42), Some(42));
    assert!(probe.probed);
    let context = probe.context(1, [0; 16]);
    assert!(context.ready && context.mapped);
    assert_eq!(context.rsp, USER_STACK_TOP - 16);
    assert_eq!(&probe_code()[..4], &[0x40, 0x05, 0x80, 0xd2]);

    let mut empty = ProbeState::new();
    let mut none = TwoFrames(vec![]);
    assert_eq!(empty.prepare(&mut none), None);
    assert!(empty.planned && !empty.payload_ready);
}

#[test]
fn user_images() {
    let args = vec![b"init".to_vec(), b"--verbose".to_vec(), vec![b'x'; 40], b"a".to_vec(), b"dropped".to_vec()];
    let page = argv_page(&args, 0x1000);
    assert_eq!(page.len(), 256);
    assert_eq!(page[0], 4);
    assert_eq!(u64::from_le_bytes(page[8..16].try_into().unwrap()), 0x1080);
    assert_eq!(u64::from_le_bytes(page[16..24].try_into().unwrap()), 4);
    assert_eq!(u64::from_le_bytes(page[24..32].try_into().unwrap()), 0x10a0);
    assert_eq!(u64::from_le_bytes(page[32..40].try_into().unwrap()), 9);
    assert_eq!(u64::from_le_bytes(page[48..56].try_into().unwrap()), 31);
    assert_eq!(&page[128..132], b"init");
    assert_eq!(&page[160..169], b"--verbose");
    assert_eq!(page[192 + 30], b'x');
    assert_eq!(page[192 + 31], 0);
    assert_eq!(page[224], b'a');
    assert!(page[225..].iter().all(|b| *b == 0));
    assert!(page[1..8].iter().all(|b| *b == 0));

    let empty = argv_page(&Vec::new(), 0);
    assert!(empty.iter().all(|b| *b == 0));

    let code = code_page(&[1, 2, 3]).unwrap();
    assert_eq!(code.len(), 4096);
    assert_eq!(&code[..4], &[1, 2, 3, 0]);
    assert_eq!(code_page(&vec![0u8; 4097]), None);

    let regions = [(0x1_0000, 0xa000), (0x2_0000, 0xb000)];
    assert_eq!(frame_offset(0x1_0010, 16, regions), Some((0xa000, 0x10)));
    assert_eq!(frame_offset(0x1_0ff8, 8, regions), Some((0xa000, 0xff8)));
    assert_eq!(frame_offset(0x1_0ff8, 9, regions), None);
    assert_eq!(frame_offset(0x2_0100, 4, regions), Some((0xb000, 0x100)));
    assert_eq!(frame_offset(0x0_f000, 4, regions), None);
}

#[test]
fn gicv2_writes_in_order() {
    let mut regs = GicTable::new(1);
    assert!(init_v2(&mut regs, 30));
    assert_eq!(regs.written.len(), 10);
    assert_eq!(regs.written[1], (Frame::Distributor, 0x180, u32::MAX));
    assert_eq!(regs.written[2], (Frame::Distributor, 0x184, u32::MAX));
    assert_eq!(regs.written[3], (Frame::Distributor, GICD_ICFGR + 4, 0));
    assert_eq!(regs.written[9], (Frame::CpuInterface, GICC_CTLR, GICD_ENABLE_GROUP0));
    let mut broken = GicTable::new(1);
    broken.fail_writes = true;
    assert!(!init_v2(&mut broken, 30));
    assert!(broken.written.is_empty());
}
