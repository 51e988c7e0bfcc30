use lib::address::PhysAddr;
use lib::address_space::{MappingInfo, MappingKind, PageFlags};
use lib::arch::aarch64::paging as arm;
use lib::arch::table_memory::{FrameAllocator, TableMemory};
use lib::arch::x86_64::paging as x86;

struct Frames {
    next: u64,
    freed: Vec<u64>,
    exhausted: bool,
}

impl Frames {
    fn new(first: u64) -> Self {
        Frames { next: first, freed: Vec::new(), exhausted: false }
    }
}

impl FrameAllocator for Frames {
    fn alloc_frame(&mut self) -> Option<u64> {
        if self.exhausted {
            return None;
        }
        let frame = self.next;
        self.next += 0x1000;
        Some(frame)
    }

    fn free_frame(&mut self, frame: u64) -> bool {
        self.freed.push(frame);
        true
    }
}

fn mapping(va: usize, frame: u64, flags: PageFlags) -> MappingInfo {
    MappingInfo { virtual_address: va, physical_frame: PhysAddr(frame), flags, kind: MappingKind::Anonymous }
}

fn memory_with_root(root: u64) -> TableMemory {
    let mut memory = TableMemory::new();
    assert!(memory.add_zeroed(root));
    memory
}

#[test]
fn table_memory_basics() {
    let mut memory = TableMemory::new();
    assert!(!memory.holds(0x1000));
    assert_eq!(memory.read_entry(0x1000, 0), None);
    assert!(memory.add_zeroed(0x1000));
    assert!(!memory.add_zeroed(0x1000));
    assert_eq!(memory.read_entry(0x1000, 511), Some(0));
    assert_eq!(memory.read_entry(0x1000, 512), None);
    assert!(memory.write_entry(0x1000, 7, 0xabc));
    assert_eq!(memory.read_entry(0x1000, 7), Some(0xabc));
    assert!(!memory.write_entry(0x2000, 7, 1));
}

#[test]
fn x86_map_translate_unmap() {
    let root = 0x1000;
    let mut memory = memory_with_root(root);
    let mut frames = Frames::new(0x10_0000);
    let mut tables: Vec<Option<PhysAddr>> = vec![None; 4];
    let va = 0x40_0000usize;

    assert!(x86::user_space_map(&mut memory, &mut frames, PhysAddr(root), mapping(va, 0x9000, PageFlags::user_rw()), &mut tables));
    assert_eq!(x86::pte_frame(&memory, root, va as u64), Some(0x9000));
    assert_eq!(x86::pte_flags(&memory, root, va as u64), Some(0x9000 | 1 | 2 | 4 | (1 << 63)));
    assert_eq!(tables.iter().filter(|t| t.is_some()).count(), 3);

    // Already mapped.
    assert!(!x86::user_space_map(&mut memory, &mut frames, PhysAddr(root), mapping(va, 0xa000, PageFlags::user_rw()), &mut tables));
    // A neighbour shares the tables and is executable.
    assert!(x86::user_space_map(&mut memory, &mut frames, PhysAddr(root), mapping(va + 0x1000, 0xa000, PageFlags::user_rx()), &mut tables));
    assert_eq!(x86::pte_flags(&memory, root, va as u64 + 0x1000), Some(0xa000 | 1 | 4));
    assert_eq!(x86::pte_frame(&memory, root, va as u64), Some(0x9000));
    assert_eq!(frames.next, 0x10_3000);

    assert!(x86::user_space_unmap(&mut memory, &mut frames, PhysAddr(root), va, &mut tables));
    assert_eq!(x86::pte_frame(&memory, root, va as u64), None);
    assert_eq!(x86::pte_frame(&memory, root, va as u64 + 0x1000), Some(0xa000));
    assert!(frames.freed.is_empty());
    assert!(!x86::user_space_unmap(&mut memory, &mut frames, PhysAddr(root), va, &mut tables));

    assert!(x86::user_space_unmap(&mut memory, &mut frames, PhysAddr(root), va + 0x1000, &mut tables));
    assert_eq!(frames.freed, vec![0x10_2000, 0x10_1000, 0x10_0000]);
    assert!(tables.iter().all(|t| t.is_none()));
    assert_eq!(memory.read_entry(root, 0), Some(0));
}

#[test]
fn x86_map_refusals() {
    let root = 0x1000;
    let mut memory = memory_with_root(root);
    let mut frames = Frames::new(0x10_0000);
    let mut tables: Vec<Option<PhysAddr>> = vec![None; 4];
    let writable_code = PageFlags { user: true, readable: true, writable: true, executable: true };
    assert!(!x86::user_space_map(&mut memory, &mut frames, PhysAddr(root), mapping(0x40_0000, 0x9000, writable_code), &mut tables));
    assert!(!x86::user_space_map(&mut memory, &mut frames, PhysAddr(root), mapping(0, 0x9000, PageFlags::user_rw()), &mut tables));
    assert!(!x86::user_space_map(&mut memory, &mut frames, PhysAddr(root), mapping(0x40_0800, 0x9000, PageFlags::user_rw()), &mut tables));
    assert!(!x86::user_space_map(&mut memory, &mut frames, PhysAddr(root), mapping(0x40_0000, 0x9001, PageFlags::user_rw()), &mut tables));
    assert!(!x86::user_space_map(&mut memory, &mut frames, PhysAddr(root), mapping(0x8000_0000_0000, 0x9000, PageFlags::user_rw()), &mut tables));
    assert!(!x86::user_space_map(&mut memory, &mut frames, PhysAddr(0x5000), mapping(0x40_0000, 0x9000, PageFlags::user_rw()), &mut tables));
    assert_eq!(frames.next, 0x10_0000);

    frames.exhausted = true;
    assert!(!x86::user_space_map(&mut memory, &mut frames, PhysAddr(root), mapping(0x40_0000, 0x9000, PageFlags::user_rw()), &mut tables));

    // A kernel entry at the top level is not followed.
    let mut kernel = memory_with_root(root);
    assert!(kernel.add_zeroed(0x2000));
    assert!(kernel.write_entry(root, 0, 0x2000 | 1 | 2));
    frames.exhausted = false;
    assert!(!x86::user_space_map(&mut kernel, &mut frames, PhysAddr(root), mapping(0x40_0000, 0x9000, PageFlags::user_rw()), &mut tables));
}

#[test]
fn x86_walk_reports_huge_and_missing_entries() {
    let root = 0x1000;
    let mut memory = memory_with_root(root);
    assert!(memory.add_zeroed(0x2000));
    assert!(memory.write_entry(root, 0, 0x2000 | 3));
    assert_eq!(x86::pte_flags(&memory, root, 0), Some(0));
    assert_eq!(x86::pte_frame(&memory, root, 0), None);
    assert!(memory.write_entry(0x2000, 0, 0x4000_0000 | 0x83));
    assert_eq!(x86::pte_flags(&memory, root, 0x1234), Some(0x4000_0083));
    assert_eq!(x86::pte_frame(&memory, root, 0x1234), None);
    assert_eq!(x86::pte_flags(&memory, root, 0x80_0000_0000), None);
    assert_eq!(lib::arch::table_memory::table_index(0x0000_7fff_ffff_f000, 0), 255);
    assert_eq!(lib::arch::table_memory::table_index(0x0000_7fff_ffff_f000, 3), 511);
}

#[test]
fn aarch64_map_unmap() {
    let root = 0x4000_0000;
    let mut memory = memory_with_root(root);
    let mut frames = Frames::new(0x4010_0000);
    let mut state = arm::PagingState::new();
    let mut tables: Vec<Option<PhysAddr>> = vec![None; 4];
    let va = 0x0000_0800_0000_0000usize;

    assert!(arm::user_space_map(&mut state, &mut memory, &mut frames, PhysAddr(root), mapping(va, 0x4800_0000, PageFlags::user_rw()), &mut tables));
    assert_eq!(state.tables_used, 3);
    let leaf_table = 0x4010_2000;
    assert_eq!(memory.read_entry(leaf_table, 0), Some(0x0060_0000_4800_0747));
    assert_eq!(memory.read_entry(root, lib::arch::table_memory::table_index(va as u64, 0)), Some(0x4010_0000 | 3));
    assert!(!arm::user_space_map(&mut state, &mut memory, &mut frames, PhysAddr(root), mapping(va, 0x4800_1000, PageFlags::user_rw()), &mut tables));
    assert!(arm::user_space_map(&mut state, &mut memory, &mut frames, PhysAddr(root), mapping(va + 0x1000, 0x4800_1000, PageFlags::user_rx()), &mut tables));
    assert_eq!(memory.read_entry(leaf_table, 1), Some(0x0020_0000_4800_17c7));
    assert!(!arm::user_space_map(&mut state, &mut memory, &mut frames, PhysAddr(root), mapping(va, 0x4800_0000, PageFlags { user: false, readable: true, writable: false, executable: false }), &mut tables));

    assert!(arm::user_space_unmap(&mut memory, &mut frames, PhysAddr(root), va, &mut tables));
    assert_eq!(memory.read_entry(leaf_table, 0), Some(0));
    assert!(frames.freed.is_empty());
    assert!(!arm::user_space_unmap(&mut memory, &mut frames, PhysAddr(root), va + 0x10, &mut tables));
    assert!(arm::user_space_unmap(&mut memory, &mut frames, PhysAddr(root), va + 0x1000, &mut tables));
    assert_eq!(frames.freed, vec![0x4010_2000, 0x4010_1000, 0x4010_0000]);
    assert!(tables.iter().all(|t| t.is_none()));
}

#[test]
fn aarch64_address_space_switching() {
    let kernel = 0x4000_0000u64;
    let root = 0x4100_0000u64;
    let mut memory = memory_with_root(kernel);
    assert!(memory.add_zeroed(root));
    assert!(memory.write_entry(kernel, 256, 0x4200_0003));
    let mut state = arm::PagingState::new();
    assert!(!arm::switch_to_user(&state, PhysAddr(root)));
    assert!(!arm::user_space_prepare(&mut state, &mut memory, 0, PhysAddr(root)));
    assert!(!arm::user_space_prepare(&mut state, &mut memory, kernel, PhysAddr(kernel)));
    assert!(arm::user_space_prepare(&mut state, &mut memory, kernel | 1, PhysAddr(root)));
    assert_eq!(state.kernel_ttbr0, kernel);
    assert_eq!(memory.read_entry(root, 256), Some(0x4200_0003));
    assert!(arm::switch_to_user(&state, PhysAddr(root)));
    assert_eq!(arm::restore_kernel_address_space(&state, root), Some(kernel));
    assert_eq!(arm::restore_kernel_address_space(&state, kernel), None);
    state.tables_used = 5;
    assert_eq!(arm::user_space_reset(&mut state, root, PhysAddr(root)), Some(kernel));
    assert_eq!(state.tables_used, 0);
    assert_eq!(arm::user_space_reset(&mut state, kernel, PhysAddr(root)), None);
    let status = arm::status(&state, 1, 2, 3, 4, 5);
    assert_eq!((status.ttbr0, status.sctlr, status.tables_used), (1, 5, 0));
}
