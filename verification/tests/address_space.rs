use lib::arch::x86_64::paging::pte_frame;
use lib::arch::x86_64::platform::PagedPlatform;
use lib::address::PhysAddr;
use lib::address_space::{
    align_up, page_base, validate_page, AddressSpace, AslrHook, Error, LoadChunk, MappingKind, MemoryPlatform, PageFlags,
    ProcessId, INITIAL_STACK_PAGES, MAX_STACK_PAGES, PAGE_SIZE, USER_LIMIT,
};
use lib::vm::{FaultInfo, FaultKind, FaultReason, FaultResult};

#[test]
fn address_space_helpers() {
    assert_eq!(validate_page(0x1000), Ok(()));
    assert_eq!(validate_page(0x1001), Err(Error::Unaligned));
    assert_eq!(validate_page(0), Err(Error::InvalidAddress));
    assert_eq!(validate_page(USER_LIMIT as usize), Err(Error::InvalidAddress));
    assert_eq!(align_up(1, PAGE_SIZE), Some(0x1000));
    assert_eq!(align_up(0x2000, PAGE_SIZE), Some(0x2000));
    assert_eq!(align_up(usize::MAX, PAGE_SIZE), None);
    assert_eq!(page_base(0x1fff), 0x1000);
    assert_eq!(PageFlags::user_rw().validate(), Ok(()));
    assert_eq!(PageFlags { user: false, ..PageFlags::user_read() }.validate(), Err(Error::KernelMapping));
    assert_eq!(PageFlags { writable: true, ..PageFlags::user_rx() }.validate(), Err(Error::WriteExecute));
    assert_eq!(PageFlags { user: true, readable: false, writable: false, executable: false }.validate(), Err(Error::NoAccess));
    let hook = AslrHook::new(0);
    assert_eq!(hook.choose_base(0x40_0000, 0x1800, 0x1000), Some(0x40_0000));
    assert_eq!(hook.choose_base(0x40_0000, 0, 0x1000), None);
    assert_eq!(hook.choose_base(0x40_0000, 0x1000, 0x1001), None);
    assert_eq!(hook.choose_base(0, 0x1000, 0x1000), None);
}

#[test]
fn address_space_lifecycle() {
    let mut platform = MemoryPlatform::new(16);
    let mut space = AddressSpace::new(ProcessId::init(), AslrHook::new(7), &mut platform).unwrap();
    assert_eq!(space.owner(), Some(ProcessId(1)));
    assert_eq!(space.root_frame(), Some(PhysAddr(0x10_0000)));
    assert!(!space.is_active() && !space.is_destroyed());

    let code = space.map_anonymous(&mut platform, 0x40_0000, PageFlags::user_rx()).unwrap();
    assert_eq!(code.physical_frame, PhysAddr(0x10_1000));
    assert_eq!(space.mapping(0x40_0000), Some(code));
    assert_eq!(space.map_anonymous(&mut platform, 0x40_0000, PageFlags::user_rw()), Err(Error::Overlap));
    assert_eq!(space.map_anonymous(&mut platform, 0x40_0001, PageFlags::user_rw()), Err(Error::Unaligned));
    assert_eq!(
        space.map_anonymous(&mut platform, 0x50_0000, PageFlags { writable: true, ..PageFlags::user_rx() }),
        Err(Error::WriteExecute)
    );
    assert!(platform.mapped.is_empty());

    space.map_stack(&mut platform).unwrap();
    let first = (USER_LIMIT as usize) - 3 * PAGE_SIZE;
    assert_eq!(space.mapping(first).map(|m| m.kind), Some(MappingKind::Stack));
    assert_eq!(space.stack_guard(), Some(first - PAGE_SIZE));
    assert_eq!(space.map_stack(&mut platform), Err(Error::InvalidState));
    assert_eq!(space.unmap_page(&mut platform, first), Err(Error::InvalidState));

    space.activate(&mut platform).unwrap();
    assert!(platform.prepared && space.is_active());
    assert_eq!(platform.mapped.len(), 3);
    assert_eq!(space.activate(&mut platform), Err(Error::InvalidState));

    space.load(&mut platform, 0x40_0ffe, &[1, 2, 3, 4]).unwrap_err();
    space.load(&mut platform, 0x40_0010, &[1, 2, 3]).unwrap();
    assert_eq!(platform.writes.last(), Some(&(0x10_1000, 0x10, vec![1, 2, 3])));
    assert_eq!(space.load(&mut platform, 0x60_0000, &[1]), Err(Error::InvalidAddress));
    space.load_words(&mut platform, 0x40_0020, &[0x0102]).unwrap();
    assert_eq!(platform.writes.last(), Some(&(0x10_1000, 0x20, vec![2, 1, 0, 0, 0, 0, 0, 0])));

    space.unmap_page(&mut platform, 0x40_0000).unwrap();
    assert_eq!(platform.unmapped, vec![0x40_0000]);
    assert_eq!(platform.freed, vec![0x10_1000]);
    assert_eq!(space.unmap_page(&mut platform, 0x40_0000), Err(Error::InvalidAddress));

    space.destroy(&mut platform).unwrap();
    assert!(space.is_destroyed() && !space.is_active());
    assert_eq!(space.owner(), None);
    assert!(platform.freed.contains(&0x10_0000));
    assert_eq!(space.destroy(&mut platform), Err(Error::InvalidState));
}

fn fault(address: usize, write: bool) -> FaultInfo {
    FaultInfo { address, raw: 0, kind: FaultKind::Translation, write, instruction: false, user: true }
}

#[test]
fn address_space_faults_grow_the_stack() {
    let mut platform = MemoryPlatform::new(64);
    let mut space = AddressSpace::new(ProcessId(2), AslrHook::new(0), &mut platform).unwrap();
    space.map_stack(&mut platform).unwrap();
    let guard = space.stack_guard().unwrap();
    assert_eq!(space.handle_fault(&mut platform, fault(guard + 8, false)), FaultResult::UserFault(FaultReason::Protection));
    assert_eq!(space.handle_fault(&mut platform, fault(guard + 8, true)), FaultResult::Resolved);
    assert_eq!(space.stack_guard(), Some(guard - PAGE_SIZE));
    assert!(space.mapping(guard).is_some());
    for _ in 0..5 {
        let guard = space.stack_guard().unwrap();
        assert_eq!(space.handle_fault(&mut platform, fault(guard, true)), FaultResult::Resolved);
    }
    let guard = space.stack_guard().unwrap();
    assert_eq!(space.handle_fault(&mut platform, fault(guard, true)), FaultResult::UserFault(FaultReason::StackOverflow));
    assert_eq!(space.handle_fault(&mut platform, fault(0x1234_5000, true)), FaultResult::UserFault(FaultReason::InvalidAddress));
    assert_eq!(
        space.handle_fault(&mut platform, FaultInfo { user: false, ..fault(0x1000, true) }),
        FaultResult::KernelFatal
    );
    assert_eq!(
        space.handle_fault(&mut platform, FaultInfo { kind: FaultKind::Permission, ..fault(0x1000, true) }),
        FaultResult::UserFault(FaultReason::Protection)
    );
    space.map_anonymous(&mut platform, 0x40_0000, PageFlags::user_read()).unwrap();
    assert_eq!(space.handle_fault(&mut platform, fault(0x40_0008, true)), FaultResult::UserFault(FaultReason::Protection));

    let mut empty = MemoryPlatform::new(0);
    assert_eq!(AddressSpace::new(ProcessId(3), AslrHook::new(0), &mut empty).err(), Some(Error::NoFrames));
}

#[test]
fn load_splits_at_page_boundaries() {
    let mut platform = MemoryPlatform::new(16);
    let mut space = AddressSpace::new(ProcessId::init(), AslrHook::new(7), &mut platform).unwrap();
    space.map_anonymous(&mut platform, 0x40_0000, PageFlags::user_rw()).unwrap();
    space.map_anonymous(&mut platform, 0x40_1000, PageFlags::user_rw()).unwrap();
    let (plan, complete) = space.load_plan(0x40_0ffe, 4);
    assert!(complete);
    assert_eq!(
        plan,
        vec![
            LoadChunk { frame: PhysAddr(0x10_1000), offset: 0xffe, start: 0, count: 2 },
            LoadChunk { frame: PhysAddr(0x10_2000), offset: 0, start: 2, count: 2 },
        ]
    );
    let (partial, complete) = space.load_plan(0x40_1ffe, 4);
    assert!(!complete);
    assert_eq!(partial, vec![LoadChunk { frame: PhysAddr(0x10_2000), offset: 0xffe, start: 0, count: 2 }]);

    assert_eq!(space.load(&mut platform, 0x40_0ffe, &[1, 2, 3, 4]), Ok(()));
    assert_eq!(platform.writes, vec![(0x10_1000, 0xffe, vec![1, 2]), (0x10_2000, 0, vec![3, 4])]);
    platform.writes.clear();
    assert_eq!(space.load(&mut platform, 0x40_1ffe, &[5, 6, 7]), Err(Error::InvalidAddress));
    assert_eq!(platform.writes, vec![(0x10_2000, 0xffe, vec![5, 6])]);
    assert_eq!(space.load(&mut platform, 0x90_0000, &[]), Ok(()));

    platform.writes.clear();
    assert_eq!(space.load_words(&mut platform, 0x40_0ffc, &[0x0807_0605_0403_0201]), Ok(()));
    assert_eq!(platform.writes, vec![(0x10_1000, 0xffc, vec![1, 2, 3, 4]), (0x10_2000, 0, vec![5, 6, 7, 8])]);
    assert_eq!(space.load_words(&mut platform, 0x40_1ff8, &[1, 2]), Err(Error::InvalidAddress));

    let list = space.mapping_list();
    assert_eq!(list.len(), 2);
    assert_eq!(list[0].virtual_address, 0x40_0000);
    assert_eq!(list[1].virtual_address, 0x40_1000);

    space.destroy(&mut platform).unwrap();
    assert_eq!(space.load(&mut platform, 0x40_0000, &[]), Err(Error::InvalidState));
    assert_eq!(space.load_words(&mut platform, 0x40_0000, &[]), Ok(()));
    assert_eq!(space.load_words(&mut platform, 0x40_0000, &[1]), Err(Error::InvalidState));
}

#[test]
fn stack_fault_answers() {
    assert_eq!(AddressSpace::stack_fault_answer(Ok(true)), FaultResult::Resolved);
    assert_eq!(AddressSpace::stack_fault_answer(Ok(false)), FaultResult::UserFault(FaultReason::StackOverflow));
    assert_eq!(AddressSpace::stack_fault_answer(Err(Error::NoFrames)), FaultResult::UserFault(FaultReason::OutOfMemory));
    assert_eq!(
        AddressSpace::stack_fault_answer(Err(Error::HardwareUnavailable)),
        FaultResult::UserFault(FaultReason::GuardPage)
    );
}

#[test]
fn stack_growth_moves_the_guard() {
    let mut platform = MemoryPlatform::new(16);
    let mut space = AddressSpace::new(ProcessId::init(), AslrHook::new(7), &mut platform).unwrap();
    space.map_stack(&mut platform).unwrap();
    let guard = space.stack_guard().unwrap();
    let fault = FaultInfo { address: guard + 8, raw: 0, kind: FaultKind::Translation, write: true, instruction: false, user: true };
    assert_eq!(space.handle_fault(&mut platform, fault), FaultResult::Resolved);
    assert_eq!(space.stack_guard(), Some(guard - PAGE_SIZE));
    assert_eq!(space.mapping(guard).map(|m| (m.kind, m.flags)), Some((MappingKind::Stack, PageFlags::user_rw())));
    let mut empty = MemoryPlatform::new(0);
    let next = FaultInfo { address: guard - PAGE_SIZE, ..fault };
    assert_eq!(space.handle_fault(&mut empty, next), FaultResult::UserFault(FaultReason::OutOfMemory));
}

#[test]
fn activation_installs_translations_in_the_page_tables() {
    let mut platform = PagedPlatform::new(0x20_0000, 64);
    let mut space = AddressSpace::new(ProcessId::init(), AslrHook::new(3), &mut platform).unwrap();
    let root = space.root_frame().unwrap();
    let code = space.map_anonymous(&mut platform, 0x40_0000, PageFlags::user_rx()).unwrap();
    let data = space.map_anonymous(&mut platform, 0x40_1000, PageFlags::user_rw()).unwrap();
    assert_eq!(pte_frame(platform.memory(), root.0, 0x40_0000), None);
    space.activate(&mut platform).unwrap();
    assert_eq!(pte_frame(platform.memory(), root.0, 0x40_0000), Some(code.physical_frame.0));
    assert_eq!(pte_frame(platform.memory(), root.0, 0x40_1000), Some(data.physical_frame.0));
    assert_eq!(pte_frame(platform.memory(), root.0, 0x40_2000), None);
    let extra = space.map_anonymous(&mut platform, 0x40_3000, PageFlags::user_read()).unwrap();
    assert_eq!(pte_frame(platform.memory(), root.0, 0x40_3000), Some(extra.physical_frame.0));
    space.unmap_page(&mut platform, 0x40_1000).unwrap();
    assert_eq!(pte_frame(platform.memory(), root.0, 0x40_1000), None);
    assert_eq!(pte_frame(platform.memory(), root.0, 0x40_0000), Some(code.physical_frame.0));
}

#[test]
fn stack_grows_at_most_six_times() {
    let mut platform = MemoryPlatform::new(64);
    let mut space = AddressSpace::new(ProcessId(4), AslrHook::new(0), &mut platform).unwrap();
    space.map_stack(&mut platform).unwrap();
    let mut grown = 0;
    for _ in 0..10 {
        let guard = space.stack_guard().unwrap();
        match space.grow_stack(&mut platform, guard + 16) {
            Ok(true) => grown += 1,
            Ok(false) => {},
            Err(error) => panic!("growth failed: {:?}", error),
        }
    }
    assert_eq!(grown, 6);
    assert_eq!(grown, MAX_STACK_PAGES - INITIAL_STACK_PAGES);
    let guard = space.stack_guard().unwrap();
    assert_eq!(space.grow_stack(&mut platform, guard), Ok(false));
    assert!(space.mapping(guard).is_none());
}

#[test]
fn owner_stays_until_destroy() {
    let mut platform = MemoryPlatform::new(32);
    let mut space = AddressSpace::new(ProcessId(5), AslrHook::new(1), &mut platform).unwrap();
    let root = space.root_frame();
    assert!(root.is_some());
    space.map_anonymous(&mut platform, 0x40_0000, PageFlags::user_rw()).unwrap();
    assert_eq!((space.owner(), space.root_frame()), (Some(ProcessId(5)), root));
    space.map_stack(&mut platform).unwrap();
    let guard = space.stack_guard().unwrap();
    assert_eq!(space.grow_stack(&mut platform, guard), Ok(true));
    space.activate(&mut platform).unwrap();
    space.unmap_page(&mut platform, 0x40_0000).unwrap();
    assert_eq!((space.owner(), space.root_frame()), (Some(ProcessId(5)), root));
    space.destroy(&mut platform).unwrap();
    assert_eq!((space.owner(), space.root_frame()), (None, None));
    assert!(space.map_anonymous(&mut platform, 0x40_0000, PageFlags::user_rw()).is_err());
    assert_eq!(space.destroy(&mut platform), Err(Error::InvalidState));
    assert_eq!((space.owner(), space.root_frame()), (None, None));
}
