use vstd::prelude::*;
use crate::address::PhysAddr;
use crate::address_space::{MappingInfo, USER_LIMIT};
use crate::arch::table_memory::{
    keeps_present, level_index, only_cleared, present, table_index, FrameAllocator, TableMemory, TABLE_ENTRIES,
};

verus! {

pub const PAGE_SIZE: u64 = 4096;
pub const ADDRESS_MASK: u64 = 0x0000_ffff_ffff_f000;
pub const PHYSICAL_MASK: u64 = 0x0000_ffff_ffff_ffff;
pub const VALID: u64 = 1;
pub const TABLE_OR_PAGE: u64 = 2;
pub const ATTR_NORMAL: u64 = 4;
pub const INNER_SHAREABLE: u64 = 0x300;
pub const ACCESS_FLAG: u64 = 0x400;
pub const AP_USER_RW: u64 = 0x40;
pub const AP_USER_RO: u64 = 0xc0;
pub const PXN: u64 = 0x20_0000_0000_0000;
pub const UXN: u64 = 0x40_0000_0000_0000;
/// A descriptor that leads to the next table.
pub const TABLE_DESCRIPTOR: u64 = 3;
/// The attributes of every user page: valid, normal memory, inner shareable, accessed,
/// never executable at EL1.
pub const USER_PAGE_BITS: u64 = 0x20_0000_0000_0707;

/// The registers that describe translation, with the count of tables handed out.
#[derive(Clone, Copy, Debug, PartialEq, Eq, Structural)]
pub struct Status {
    pub ttbr0: u64,
    pub ttbr1: u64,
    pub tcr: u64,
    pub mair: u64,
    pub sctlr: u64,
    pub tables_used: usize,
}

/// What the kernel keeps between calls: its own translation table base, and how many
/// tables it has handed to the current user space.
#[derive(Clone, Copy, Debug, PartialEq, Eq, Structural)]
pub struct PagingState {
    pub kernel_ttbr0: u64,
    pub tables_used: usize,
}

impl PagingState {
    pub fn new() -> (r: Self)
        ensures
            r == (PagingState { kernel_ttbr0: 0, tables_used: 0 }),
    {
        PagingState { kernel_ttbr0: 0, tables_used: 0 }
    }
}

/// The status report from the register values read at the moment.
pub fn status(state: &PagingState, ttbr0: u64, ttbr1: u64, tcr: u64, mair: u64, sctlr: u64) -> (r: Status)
    ensures
        r == (Status { ttbr0, ttbr1, tcr, mair, sctlr, tables_used: state.tables_used }),
{
    Status { ttbr0, ttbr1, tcr, mair, sctlr, tables_used: state.tables_used }
}

/// A table the kernel can reach: inside the physical address range, and held.
pub open spec fn reachable(mem: TableMemory, frame: u64) -> bool {
    frame & !PHYSICAL_MASK == 0 && mem.has(frame)
}

pub open spec fn is_table(descriptor: u64) -> bool {
    descriptor & TABLE_DESCRIPTOR == TABLE_DESCRIPTOR
}

/// The page descriptor for `va` under `root`: the three upper descriptors must be valid
/// table descriptors leading to reachable tables, and the last one valid.
pub open spec fn page_descriptor(mem: TableMemory, root: u64, va: u64) -> Option<u64> {
    if !reachable(mem, root) {
        None
    } else {
        match mem.read(root, level_index(va, 0)) {
            Some(d0) if is_table(d0) && reachable(mem, d0 & ADDRESS_MASK) => match mem.read(
                d0 & ADDRESS_MASK,
                level_index(va, 1),
            ) {
                Some(d1) if is_table(d1) && reachable(mem, d1 & ADDRESS_MASK) => match mem.read(
                    d1 & ADDRESS_MASK,
                    level_index(va, 2),
                ) {
                    Some(d2) if is_table(d2) && reachable(mem, d2 & ADDRESS_MASK) => match mem.read(
                        d2 & ADDRESS_MASK,
                        level_index(va, 3),
                    ) {
                        Some(d3) if present(d3) => Some(d3),
                        _ => None,
                    },
                    _ => None,
                },
                _ => None,
            },
            _ => None,
        }
    }
}

/// Whether `frame` is one of the recorded tables.
pub open spec fn owned_by(tables: Seq<Option<PhysAddr>>, frame: u64) -> bool {
    exists|i: int| 0 <= i < tables.len() && tables[i] == Some(PhysAddr(frame))
}

/// The descriptor `user_space_map` writes for a mapping.
pub open spec fn page_entry(mapping: MappingInfo) -> u64 {
    page_bits(mapping.physical_frame.0, mapping.flags.writable, mapping.flags.executable)
}

/// The frame's address bits with the user page attributes: read-write or read-only, and
/// never executable at EL0 unless asked.
pub open spec fn page_bits(frame: u64, writable: bool, executable: bool) -> u64 {
    let descriptor = (frame & ADDRESS_MASK) | USER_PAGE_BITS;
    let descriptor = descriptor | if writable {
        AP_USER_RW
    } else {
        AP_USER_RO
    };
    if !executable {
        descriptor | UXN
    } else {
        descriptor
    }
}

/// A page descriptor is valid.
proof fn lemma_page_valid(frame: u64, writable: bool, executable: bool)
    by (bit_vector)
    ensures
        page_bits(frame, writable, executable) & 1u64 != 0,
{
}

/// What `user_space_map` asks of a mapping before touching any table.
pub open spec fn mapping_acceptable(mapping: MappingInfo) -> bool {
    &&& mapping.flags.user
    &&& mapping.virtual_address % 4096 == 0
    &&& mapping.virtual_address < USER_LIMIT
    &&& mapping.physical_frame.0 % 4096 == 0
}

fn reach(memory: &TableMemory, frame: u64) -> (r: bool)
    requires
        memory.wf(),
    ensures
        r == reachable(*memory, frame),
{
    frame & !PHYSICAL_MASK == 0 && memory.holds(frame)
}

/// Whether `frame` is recorded in `tables`.
pub fn owned_table(tables: &Vec<Option<PhysAddr>>, frame: u64) -> (r: bool)
    ensures
        r == owned_by(tables@, frame),
{
    let mut i: usize = 0;
    while i < tables.len()
        invariant
            i <= tables@.len(),
            forall|j: int| 0 <= j < i ==> tables@[j] != Some(PhysAddr(frame)),
        decreases tables@.len() - i,
    {
        match tables[i] {
            Some(entry) => if entry.0 == frame {
                return true;
            },
            None => {},
        }
        i = i + 1;
    }
    false
}

/// The first free slot of `tables`.
fn free_slot(tables: &Vec<Option<PhysAddr>>) -> (r: Option<usize>)
    ensures
        r matches Some(i) ==> i < tables@.len() && tables@[i as int] is None,
        r is None ==> forall|j: int| 0 <= j < tables@.len() ==> tables@[j] is Some,
{
    let mut i: usize = 0;
    while i < tables.len()
        invariant
            i <= tables@.len(),
            forall|j: int| 0 <= j < i ==> tables@[j] is Some,
        decreases tables@.len() - i,
    {
        if tables[i].is_none() {
            return Some(i);
        }
        i = i + 1;
    }
    None
}

proof fn lemma_table_descriptor(frame: u64)
    by (bit_vector)
    requires
        frame & !0x0000_ffff_ffff_f000u64 == 0,
    ensures
        (frame | 3u64) & 0x0000_ffff_ffff_f000u64 == frame,
        (frame | 3u64) & 3u64 == 3u64,
        (frame | 3u64) & 1u64 != 0,
        frame & !0x0000_ffff_ffff_ffffu64 == 0,
{
}

/// Facts about descriptor bits: a table descriptor is valid, zero is neither, and the
/// valid and table bits together make three.
proof fn lemma_descriptor_bits(d: u64)
    by (bit_vector)
    ensures
        d & 3u64 == 3u64 ==> d & 1u64 != 0,
        d & 3u64 == 3u64 ==> d & 2u64 == 2u64,
        d & 1u64 != 0 && d & 2u64 == 2u64 ==> d & 3u64 == 3u64,
        0u64 & 3u64 != 3u64,
        0u64 & 1u64 == 0,
        1u64 | 2u64 == 3u64,
{
}

proof fn lemma_table_is_present(d: u64)
    requires
        is_table(d),
    ensures
        present(d),
{
    lemma_descriptor_bits(d);
}

/// One step down the walk for a user page: an absent descriptor gets a fresh zeroed table
/// (its frame recorded in a free slot of `tables` and counted), a valid one must be a table
/// descriptor leading to a recorded table.
fn descend<A: FrameAllocator>(
    state: &mut PagingState,
    memory: &mut TableMemory,
    frames: &mut A,
    table: u64,
    index: usize,
    tables: &mut Vec<Option<PhysAddr>>,
) -> (r: Option<u64>)
    requires
        old(memory).wf(),
        index < TABLE_ENTRIES,
    ensures
        final(memory).wf(),
        keeps_present(*old(memory), *final(memory)),
        forall|f: u64| old(memory).has(f) ==> final(memory).has(f),
        final(state).kernel_ttbr0 == old(state).kernel_ttbr0,
        final(tables)@.len() == old(tables)@.len(),
        forall|i: int| 0 <= i < old(tables)@.len() && old(tables)@[i] is Some ==> final(tables)@[i] == old(tables)@[i],
        r matches Some(next) ==> {
            &&& final(memory).read(table, index as int) matches Some(d) && is_table(d) && d & ADDRESS_MASK
                == next
            &&& reachable(*final(memory), next)
            &&& owned_by(final(tables)@, next)
        },
        !reachable(*old(memory), table) ==> r is None && *final(memory) == *old(memory),
        reachable(*old(memory), table) ==> match old(memory).read(table, index as int) {
            Some(d) => present(d) ==> *final(memory) == *old(memory) && final(tables)@ == old(tables)@
                && *final(state) == *old(state) && r == (if is_table(d) && owned_by(old(tables)@, d & ADDRESS_MASK)
                && reachable(*old(memory), d & ADDRESS_MASK) {
                Some(d & ADDRESS_MASK)
            } else {
                None
            }),
            None => r is None && *final(memory) == *old(memory),
        },
{
    proof {
        old(memory).lemma_read(table, index as int);
    }
    if !reach(memory, table) {
        return None;
    }
    let descriptor = match memory.read_entry(table, index) {
        Some(d) => d,
        None => return None,
    };
    if descriptor & VALID != 0 {
        if descriptor & TABLE_OR_PAGE != TABLE_OR_PAGE {
            proof {
                lemma_descriptor_bits(descriptor);
            }
            return None;
        }
        let next = descriptor & ADDRESS_MASK;
        if !owned_table(tables, next) {
            return None;
        }
        proof {
            lemma_descriptor_bits(descriptor);
        }
        if !reach(memory, next) {
            return None;
        }
        return Some(next);
    }
    let slot = match free_slot(tables) {
        Some(s) => s,
        None => return None,
    };
    let frame = match frames.alloc_frame() {
        Some(f) => f,
        None => return None,
    };
    let ghost before_add = *memory;
    if frame & !ADDRESS_MASK != 0 || !memory.add_zeroed(frame) {
        let _ = frames.free_frame(frame);
        return None;
    }
    proof {
        before_add.lemma_read(table, index as int);
        assert forall|f: u64, i: int| #[trigger] before_add.read(f, i) is Some implies memory.read(f, i)
            == before_add.read(f, i) by {
            before_add.lemma_read(f, i);
        }
        lemma_table_descriptor(frame);
    }
    tables.set(slot, Some(PhysAddr(frame)));
    state.tables_used = state.tables_used.saturating_add(1);
    let ghost before = *memory;
    let written = memory.write_entry(table, index, frame | TABLE_DESCRIPTOR);
    assert(written);
    assert(keeps_present(before, *memory));
    assert(tables@[slot as int] == Some(PhysAddr(frame)));
    Some(frame)
}

/// Whether the walk for `va` under `root` already leads, through table descriptors to
/// reachable tables recorded in `tables`, to an invalid last-level descriptor.
pub open spec fn page_slot_free(mem: TableMemory, tables: Seq<Option<PhysAddr>>, root: u64, va: u64) -> bool {
    &&& reachable(mem, root)
    &&& mem.read(root, level_index(va, 0)) matches Some(d0)
    &&& is_table(d0) && reachable(mem, d0 & ADDRESS_MASK) && owned_by(tables, d0 & ADDRESS_MASK)
    &&& mem.read(d0 & ADDRESS_MASK, level_index(va, 1)) matches Some(d1)
    &&& is_table(d1) && reachable(mem, d1 & ADDRESS_MASK) && owned_by(tables, d1 & ADDRESS_MASK)
    &&& mem.read(d1 & ADDRESS_MASK, level_index(va, 2)) matches Some(d2)
    &&& is_table(d2) && reachable(mem, d2 & ADDRESS_MASK) && owned_by(tables, d2 & ADDRESS_MASK)
    &&& mem.read(d2 & ADDRESS_MASK, level_index(va, 3)) matches Some(d3)
    &&& !present(d3)
}

/// Maps a user page under `root`: the mapping must be a user one with page-aligned
/// addresses below the user limit; missing tables come from `frames`, are recorded in free
/// slots of `tables` and counted in `state`. False when a table is out of reach, an upper
/// descriptor is a block or leads to a table not recorded, the page is already mapped, or
/// no frame or slot is left. The caller invalidates the TLB after success.
pub fn user_space_map<A: FrameAllocator>(
    state: &mut PagingState,
    memory: &mut TableMemory,
    frames: &mut A,
    root: PhysAddr,
    mapping: MappingInfo,
    tables: &mut Vec<Option<PhysAddr>>,
) -> (r: bool)
    requires
        old(memory).wf(),
    ensures
        final(memory).wf(),
        !mapping_acceptable(mapping) ==> !r && *final(memory) == *old(memory) && final(tables)@ == old(tables)@ && *final(state) == *old(state),
        r ==> mapping_acceptable(mapping),
        r ==> page_descriptor(*final(memory), root.0, mapping.virtual_address as u64) == Some(page_entry(mapping)),
        r ==> page_descriptor(*old(memory), root.0, mapping.virtual_address as u64) is None,
        mapping_acceptable(mapping) && page_slot_free(*old(memory), old(tables)@, root.0, mapping.virtual_address as u64)
            ==> r && final(tables)@ == old(tables)@ && *final(state) == *old(state),
        forall|other: u64|
            #![trigger page_descriptor(*final(memory), root.0, other)]
            page_descriptor(*old(memory), root.0, other) is Some ==> page_descriptor(*final(memory), root.0, other)
                == page_descriptor(*old(memory), root.0, other),
        keeps_present(*old(memory), *final(memory)),
        final(state).kernel_ttbr0 == old(state).kernel_ttbr0,
        final(tables)@.len() == old(tables)@.len(),
        forall|i: int| 0 <= i < old(tables)@.len() && old(tables)@[i] is Some ==> final(tables)@[i] == old(tables)@[i],
{
    let ghost start = *memory;
    let result = map_user_page(state, memory, frames, root, mapping, tables);
    proof {
        assert forall|other: u64| #[trigger] page_descriptor(*memory, root.0, other) == page_descriptor(*memory, root.0, other)
            && (page_descriptor(start, root.0, other) is Some ==> page_descriptor(*memory, root.0, other)
            == page_descriptor(start, root.0, other)) by {
            law_present_entries_keep_pages(start, *memory, root.0, other);
        }
    }
    result
}

fn map_user_page<A: FrameAllocator>(
    state: &mut PagingState,
    memory: &mut TableMemory,
    frames: &mut A,
    root: PhysAddr,
    mapping: MappingInfo,
    tables: &mut Vec<Option<PhysAddr>>,
) -> (r: bool)
    requires
        old(memory).wf(),
    ensures
        final(memory).wf(),
        !mapping_acceptable(mapping) ==> !r && *final(memory) == *old(memory) && final(tables)@ == old(tables)@ && *final(state) == *old(state),
        r ==> mapping_acceptable(mapping),
        r ==> page_descriptor(*final(memory), root.0, mapping.virtual_address as u64) == Some(page_entry(mapping)),
        r ==> page_descriptor(*old(memory), root.0, mapping.virtual_address as u64) is None,
        mapping_acceptable(mapping) && page_slot_free(*old(memory), old(tables)@, root.0, mapping.virtual_address as u64)
            ==> r && final(tables)@ == old(tables)@ && *final(state) == *old(state),
        keeps_present(*old(memory), *final(memory)),
        forall|f: u64| old(memory).has(f) ==> final(memory).has(f),
        final(state).kernel_ttbr0 == old(state).kernel_ttbr0,
        final(tables)@.len() == old(tables)@.len(),
        forall|i: int| 0 <= i < old(tables)@.len() && old(tables)@[i] is Some ==> final(tables)@[i] == old(tables)@[i],
{
    let va = mapping.virtual_address;
    if !mapping.flags.user || va % 4096 != 0 || va as u64 >= USER_LIMIT || mapping.physical_frame.0 % 4096 != 0 {
        return false;
    }
    let va = va as u64;
    let ghost m0 = *memory;
    proof {
        lemma_descriptor_bits(0);
        if page_slot_free(m0, tables@, root.0, va) {
            let d0 = m0.read(root.0, level_index(va, 0))->0;
            let d1 = m0.read(d0 & ADDRESS_MASK, level_index(va, 1))->0;
            let d2 = m0.read(d1 & ADDRESS_MASK, level_index(va, 2))->0;
            lemma_table_is_present(d0);
            lemma_table_is_present(d1);
            lemma_table_is_present(d2);
        }
    }
    let i0 = table_index(va, 0);
    let i1 = table_index(va, 1);
    let i2 = table_index(va, 2);
    let i3 = table_index(va, 3);
    let t1 = match descend(state, memory, frames, root.0, i0, tables) {
        Some(t) => t,
        None => return false,
    };
    let ghost m1 = *memory;
    let t2 = match descend(state, memory, frames, t1, i1, tables) {
        Some(t) => t,
        None => return false,
    };
    let ghost m2 = *memory;
    let t3 = match descend(state, memory, frames, t2, i2, tables) {
        Some(t) => t,
        None => return false,
    };
    let ghost m3 = *memory;
    assert(keeps_present(m0, m3));
    if !reach(memory, t3) {
        return false;
    }
    let leaf = match memory.read_entry(t3, i3) {
        Some(e) => e,
        None => return false,
    };
    if leaf & VALID != 0 {
        return false;
    }
    let mut descriptor = mapping.physical_frame.0 & ADDRESS_MASK;
    descriptor = descriptor | USER_PAGE_BITS;
    descriptor = descriptor | if mapping.flags.writable {
        AP_USER_RW
    } else {
        AP_USER_RO
    };
    if !mapping.flags.executable {
        descriptor = descriptor | UXN;
    }
    assert(descriptor == page_entry(mapping));
    let written = memory.write_entry(t3, i3, descriptor);
    assert(written);
    proof {
        let d0 = m1.read(root.0, i0 as int)->0;
        let d1 = m2.read(t1, i1 as int)->0;
        let d2 = m3.read(t2, i2 as int)->0;
        lemma_table_is_present(d0);
        lemma_table_is_present(d1);
        lemma_table_is_present(d2);
        lemma_page_valid(mapping.physical_frame.0, mapping.flags.writable, mapping.flags.executable);
        assert(memory.read(root.0, i0 as int) == Some(d0));
        assert(memory.read(t1, i1 as int) == Some(d1));
        assert(memory.read(t2, i2 as int) == Some(d2));
        assert(reachable(m1, root.0));
        assert(page_descriptor(*memory, root.0, va) == Some(descriptor));
        if let Some(e) = page_descriptor(m0, root.0, va) {
            let x0 = m0.read(root.0, i0 as int)->0;
            lemma_table_is_present(x0);
            assert(m1.read(root.0, i0 as int) == Some(x0));
            let x1 = m0.read(t1, i1 as int)->0;
            lemma_table_is_present(x1);
            assert(m2.read(t1, i1 as int) == Some(x1));
            let x2 = m0.read(t2, i2 as int)->0;
            lemma_table_is_present(x2);
            assert(m3.read(t2, i2 as int) == Some(x2));
            assert(m3.read(t3, i3 as int) == Some(e));
            assert(false);
        }
    }
    true
}

/// Filling absent descriptors and adding tables never changes a page that is mapped.
pub proof fn law_present_entries_keep_pages(before: TableMemory, after: TableMemory, root: u64, va: u64)
    requires
        keeps_present(before, after),
        forall|f: u64| before.has(f) ==> after.has(f),
    ensures
        page_descriptor(before, root, va) is Some ==> page_descriptor(after, root, va) == page_descriptor(
            before,
            root,
            va,
        ),
{
    if page_descriptor(before, root, va) is Some {
        let d0 = before.read(root, level_index(va, 0))->0;
        lemma_table_is_present(d0);
        let d1 = before.read(d0 & ADDRESS_MASK, level_index(va, 1))->0;
        lemma_table_is_present(d1);
        let d2 = before.read(d1 & ADDRESS_MASK, level_index(va, 2))->0;
        lemma_table_is_present(d2);
        assert(after.read(root, level_index(va, 0)) == Some(d0));
        assert(after.read(d0 & ADDRESS_MASK, level_index(va, 1)) == Some(d1));
        assert(after.read(d1 & ADDRESS_MASK, level_index(va, 2)) == Some(d2));
    }
}


/// What `user_space_unmap` asks before it clears anything: an aligned page mapped through
/// table descriptors that lead to reachable tables recorded in `owned`.
pub open spec fn unmappable(mem: TableMemory, owned: Seq<Option<PhysAddr>>, root: u64, va: u64) -> bool {
    &&& va % 4096 == 0
    &&& page_descriptor(mem, root, va) is Some
    &&& owned_by(owned, mem.read(root, level_index(va, 0))->0 & ADDRESS_MASK)
    &&& owned_by(
        owned,
        mem.read(mem.read(root, level_index(va, 0))->0 & ADDRESS_MASK, level_index(va, 1))->0 & ADDRESS_MASK,
    )
    &&& owned_by(
        owned,
        mem.read(
            mem.read(mem.read(root, level_index(va, 0))->0 & ADDRESS_MASK, level_index(va, 1))->0 & ADDRESS_MASK,
            level_index(va, 2),
        )->0 & ADDRESS_MASK,
    )
}

proof fn lemma_zero_not_table()
    ensures
        !is_table(0),
        !present(0),
{
    lemma_descriptor_bits(0);
}

/// The last-level table the walk for `va` reaches under `root`.
pub open spec fn page_table_of(mem: TableMemory, root: u64, va: u64) -> u64 {
    let d0 = mem.read(root, level_index(va, 0))->0;
    let d1 = mem.read(d0 & ADDRESS_MASK, level_index(va, 1))->0;
    let d2 = mem.read(d1 & ADDRESS_MASK, level_index(va, 2))->0;
    d2 & ADDRESS_MASK
}

/// Whether descriptor `index` of the table at `frame` is valid.
pub open spec fn valid_at(mem: TableMemory, frame: u64, index: int) -> bool {
    mem.read(frame, index) matches Some(d) && present(d)
}

/// Whether the last-level table for `va` holds another valid descriptor besides its own.
pub open spec fn shares_page_table(mem: TableMemory, root: u64, va: u64) -> bool {
    exists|i: int|
        0 <= i < TABLE_ENTRIES && i != level_index(va, 3) && #[trigger] valid_at(mem, page_table_of(mem, root, va), i)
}

/// Once the last-level descriptor of a mapped page is zero, and nothing else was written
/// but zeros, the page is no longer mapped.
proof fn lemma_page_gone(m0: TableMemory, m: TableMemory, root: u64, va: u64)
    requires
        page_descriptor(m0, root, va) is Some,
        only_cleared(m0, m),
        m.read(page_table_of(m0, root, va), level_index(va, 3)) == Some(0u64),
    ensures
        page_descriptor(m, root, va) is None,
{
    lemma_zero_not_table();
    let d0 = m0.read(root, level_index(va, 0))->0;
    let d1 = m0.read(d0 & ADDRESS_MASK, level_index(va, 1))->0;
    let d2 = m0.read(d1 & ADDRESS_MASK, level_index(va, 2))->0;
    assert(m.read(root, level_index(va, 0)) == Some(d0) || m.read(root, level_index(va, 0)) == Some(0u64));
    assert(m.read(d0 & ADDRESS_MASK, level_index(va, 1)) == Some(d1) || m.read(d0 & ADDRESS_MASK, level_index(va, 1))
        == Some(0u64));
    assert(m.read(d1 & ADDRESS_MASK, level_index(va, 2)) == Some(d2) || m.read(d1 & ADDRESS_MASK, level_index(va, 2))
        == Some(0u64));
}

/// Whether no descriptor of the table at `frame` is valid.
fn table_empty(memory: &TableMemory, frame: u64) -> (r: bool)
    requires
        memory.wf(),
    ensures
        r == forall|i: int| 0 <= i < TABLE_ENTRIES ==> !(#[trigger] memory.read(frame, i) matches Some(e) && present(e)),
{
    let mut index: usize = 0;
    while index < TABLE_ENTRIES
        invariant
            memory.wf(),
            index <= TABLE_ENTRIES,
            forall|i: int| 0 <= i < index ==> !(#[trigger] memory.read(frame, i) matches Some(e) && present(e)),
        decreases TABLE_ENTRIES - index,
    {
        match memory.read_entry(frame, index) {
            Some(e) => if e & VALID != 0 {
                return false;
            },
            None => {},
        }
        index = index + 1;
    }
    true
}

/// Removes the user page at `va` under `root`, then gives back to `frames` each recorded
/// table the removal leaves empty, from the bottom up. False, with nothing changed, unless
/// the page is aligned and mapped through recorded tables (see `unmappable`); false after
/// the page is gone when an emptied table is not recorded or the allocator refuses it. The
/// caller invalidates the TLB.
pub fn user_space_unmap<A: FrameAllocator>(
    memory: &mut TableMemory,
    frames: &mut A,
    root: PhysAddr,
    va: usize,
    owned: &mut Vec<Option<PhysAddr>>,
) -> (r: bool)
    requires
        old(memory).wf(),
    ensures
        final(memory).wf(),
        !unmappable(*old(memory), old(owned)@, root.0, va as u64) ==> !r && *final(memory) == *old(memory)
            && final(owned)@ == old(owned)@,
        r ==> unmappable(*old(memory), old(owned)@, root.0, va as u64),
        r ==> page_descriptor(*final(memory), root.0, va as u64) is None,
        unmappable(*old(memory), old(owned)@, root.0, va as u64) ==> page_descriptor(*final(memory), root.0, va as u64)
            is None,
        unmappable(*old(memory), old(owned)@, root.0, va as u64) && shares_page_table(*old(memory), root.0, va as u64)
            ==> r && final(owned)@ == old(owned)@,
        only_cleared(*old(memory), *final(memory)),
        final(owned)@.len() == old(owned)@.len(),
        forall|i: int| 0 <= i < old(owned)@.len() ==> final(owned)@[i] == old(owned)@[i] || final(owned)@[i] is None,
{
    if va % 4096 != 0 {
        return false;
    }
    let address = va as u64;
    let ghost m0 = *memory;
    proof {
        lemma_descriptor_bits(0);
    }
    let i0 = table_index(address, 0);
    let i1 = table_index(address, 1);
    let i2 = table_index(address, 2);
    let i3 = table_index(address, 3);
    if !reach(memory, root.0) {
        return false;
    }
    let d0 = match memory.read_entry(root.0, i0) {
        Some(d) => d,
        None => return false,
    };
    if d0 & (VALID | TABLE_OR_PAGE) != VALID | TABLE_OR_PAGE {
        return false;
    }
    let t1 = d0 & ADDRESS_MASK;
    if !owned_table(owned, t1) || !reach(memory, t1) {
        return false;
    }
    let d1 = match memory.read_entry(t1, i1) {
        Some(d) => d,
        None => return false,
    };
    if d1 & (VALID | TABLE_OR_PAGE) != VALID | TABLE_OR_PAGE {
        return false;
    }
    let t2 = d1 & ADDRESS_MASK;
    if !owned_table(owned, t2) || !reach(memory, t2) {
        return false;
    }
    let d2 = match memory.read_entry(t2, i2) {
        Some(d) => d,
        None => return false,
    };
    if d2 & (VALID | TABLE_OR_PAGE) != VALID | TABLE_OR_PAGE {
        return false;
    }
    let t3 = d2 & ADDRESS_MASK;
    if !owned_table(owned, t3) || !reach(memory, t3) {
        return false;
    }
    let leaf = match memory.read_entry(t3, i3) {
        Some(d) => d,
        None => return false,
    };
    if leaf & VALID == 0 {
        return false;
    }
    assert(unmappable(m0, old(owned)@, root.0, address));
    let _ = memory.write_entry(t3, i3, 0);
    proof {
        m0.lemma_read(t3, i3 as int);
        lemma_zero_not_table();
        lemma_table_is_present(d0);
        lemma_table_is_present(d1);
        lemma_table_is_present(d2);
        assert(page_table_of(m0, root.0, address) == t3);
        lemma_page_gone(m0, *memory, root.0, address);
    }
    let ghost m_leaf = *memory;
    let ghost shared = shares_page_table(m0, root.0, address);
    let children: [u64; 3] = [t1, t2, t3];
    let parents: [(u64, usize); 3] = [(root.0, i0), (t1, i1), (t2, i2)];
    let mut depth: usize = 3;
    while depth > 0
        invariant_except_break
            shared ==> depth == 3,
        invariant
            memory.wf(),
            depth <= 3,
            m0 == *old(memory),
            address == va as u64,
            unmappable(m0, old(owned)@, root.0, address),
            page_table_of(m0, root.0, address) == t3,
            i3 == level_index(address, 3),
            forall|i: int| i != i3 ==> m_leaf.read(t3, i) == m0.read(t3, i),
            shared == shares_page_table(m0, root.0, address),
            shared ==> *memory == m_leaf && owned@ == old(owned)@,
            only_cleared(m0, *memory),
            memory.read(t3, i3 as int) == Some(0u64),
            children@ == seq![t1, t2, t3],
            parents@ == seq![(root.0, i0), (t1, i1), (t2, i2)],
            owned@.len() == old(owned)@.len(),
            forall|i: int| 0 <= i < old(owned)@.len() ==> owned@[i] == old(owned)@[i] || owned@[i] is None,
        decreases depth,
    {
        depth = depth - 1;
        let child = children[depth];
        let (parent_table, parent_index) = parents[depth];
        if !reach(memory, child) || !table_empty(memory, child) {
            break;
        }
        proof {
            if shared {
                let i = choose|i: int|
                    0 <= i < TABLE_ENTRIES && i != level_index(address, 3) && #[trigger] valid_at(
                        m0,
                        page_table_of(m0, root.0, address),
                        i,
                    );
                assert(memory.read(child, i) == m0.read(t3, i));
                assert(valid_at(*memory, child, i));
            }
        }
        let mut slot: usize = 0;
        while slot < owned.len()
            invariant
                slot <= owned@.len(),
            ensures
                slot <= owned@.len(),
                slot < owned@.len() ==> owned@[slot as int] == Some(PhysAddr(child)),
            decreases owned@.len() - slot,
        {
            match owned[slot] {
                Some(frame) => if frame.0 == child {
                    break;
                },
                None => {},
            }
            slot = slot + 1;
        }
        if slot == owned.len() {
            proof {
                lemma_page_gone(m0, *memory, root.0, address);
            }
            return false;
        }
        if !frames.free_frame(child) {
            proof {
                lemma_page_gone(m0, *memory, root.0, address);
            }
            return false;
        }
        let ghost before = *memory;
        let _ = memory.write_entry(parent_table, parent_index, 0);
        assert(only_cleared(before, *memory));
        owned.set(slot, None);
    }
    proof {
        let m = *memory;
        if page_descriptor(m, root.0, address) is Some {
            assert(m.read(root.0, i0 as int) == Some(d0));
            assert(m.read(t1, i1 as int) == Some(d1) || m.read(t1, i1 as int) == Some(0u64));
            assert(m.read(t1, i1 as int) == Some(d1));
            assert(m.read(t2, i2 as int) == Some(d2) || m.read(t2, i2 as int) == Some(0u64));
            assert(m.read(t2, i2 as int) == Some(d2));
            assert(false);
        }
    }
    true
}

/// Copies every descriptor of the table at `source` into the table at `destination`; false,
/// with nothing copied, unless both are reachable.
fn copy_table(memory: &mut TableMemory, source: u64, destination: u64) -> (r: bool)
    requires
        old(memory).wf(),
    ensures
        final(memory).wf(),
        r == (reachable(*old(memory), source) && reachable(*old(memory), destination)),
        !r ==> *final(memory) == *old(memory),
        forall|f: u64| final(memory).has(f) == old(memory).has(f),
        forall|f: u64, i: int|
            #![trigger final(memory).read(f, i)]
            final(memory).read(f, i) == if r && f == destination && 0 <= i < TABLE_ENTRIES {
                old(memory).read(source, i)
            } else {
                old(memory).read(f, i)
            },
{
    if !reach(memory, source) || !reach(memory, destination) {
        return false;
    }
    let ghost m0 = *memory;
    let mut index: usize = 0;
    while index < TABLE_ENTRIES
        invariant
            memory.wf(),
            index <= TABLE_ENTRIES,
            m0.has(source) && m0.has(destination),
            forall|f: u64| memory.has(f) == m0.has(f),
            forall|f: u64, i: int|
                #![trigger memory.read(f, i)]
                memory.read(f, i) == if f == destination && 0 <= i < index {
                    m0.read(source, i)
                } else {
                    m0.read(f, i)
                },
        decreases TABLE_ENTRIES - index,
    {
        proof {
            m0.lemma_read(source, index as int);
            memory.lemma_read(source, index as int);
        }
        let value = match memory.read_entry(source, index) {
            Some(v) => v,
            None => return false,
        };
        assert(value == m0.read(source, index as int)->0);
        let _ = memory.write_entry(destination, index, value);
        index = index + 1;
    }
    true
}

/// Prepares `root` as a new user space: the kernel's table base is the one recorded, or on
/// first use the one in TTBR0 now, and the root starts as a copy of the kernel's top table.
/// False when there is no kernel table, the root is zero or the kernel's own, or either
/// table is out of reach. On success the table count starts again from zero.
pub fn user_space_prepare(state: &mut PagingState, memory: &mut TableMemory, current_ttbr0: u64, root: PhysAddr) -> (r:
    bool)
    requires
        old(memory).wf(),
    ensures
        final(memory).wf(),
        ({
            let kernel = if old(state).kernel_ttbr0 == 0 {
                current_ttbr0 & ADDRESS_MASK
            } else {
                old(state).kernel_ttbr0
            };
            &&& r == (kernel != 0 && root.0 != 0 && root.0 != kernel && reachable(*old(memory), kernel)
                && reachable(*old(memory), root.0))
            &&& r ==> *final(state) == (PagingState { kernel_ttbr0: kernel, tables_used: 0 })
            &&& r ==> forall|i: int|
                0 <= i < TABLE_ENTRIES ==> #[trigger] final(memory).read(root.0, i) == old(memory).read(kernel, i)
            &&& !r ==> *final(state) == *old(state) && *final(memory) == *old(memory)
        }),
        forall|f: u64, i: int| f != root.0 ==> #[trigger] final(memory).read(f, i) == old(memory).read(f, i),
{
    let current = current_ttbr0 & ADDRESS_MASK;
    let kernel = if state.kernel_ttbr0 == 0 {
        current
    } else {
        state.kernel_ttbr0
    };
    if kernel == 0 || root.0 == 0 || root.0 == kernel {
        return false;
    }
    if !copy_table(memory, kernel, root.0) {
        return false;
    }
    state.kernel_ttbr0 = kernel;
    state.tables_used = 0;
    true
}

/// Leaves a user space: when it is the one in TTBR0 and the kernel's table base is known,
/// returns the base to switch back to. The table count starts again from zero.
pub fn user_space_reset(state: &mut PagingState, current_ttbr0: u64, root: PhysAddr) -> (r: Option<u64>)
    ensures
        *final(state) == (PagingState { tables_used: 0, ..*old(state) }),
        r == (if current_ttbr0 & ADDRESS_MASK == root.0 && old(state).kernel_ttbr0 != 0 {
            Some(old(state).kernel_ttbr0)
        } else {
            None
        }),
{
    let switch_back = if current_ttbr0 & ADDRESS_MASK == root.0 && state.kernel_ttbr0 != 0 {
        Some(state.kernel_ttbr0)
    } else {
        None
    };
    state.tables_used = 0;
    switch_back
}

/// Whether TTBR0 may be pointed at `root`: it must be a table and the kernel's own base
/// must be known, so that it can be restored.
pub fn switch_to_user(state: &PagingState, root: PhysAddr) -> (r: bool)
    ensures
        r == (root.0 != 0 && state.kernel_ttbr0 != 0),
{
    root.0 != 0 && state.kernel_ttbr0 != 0
}

/// The kernel's table base to put back into TTBR0, when it is known and not there already.
pub fn restore_kernel_address_space(state: &PagingState, current_ttbr0: u64) -> (r: Option<u64>)
    ensures
        r == (if state.kernel_ttbr0 != 0 && current_ttbr0 & ADDRESS_MASK != state.kernel_ttbr0 {
            Some(state.kernel_ttbr0)
        } else {
            None
        }),
{
    if state.kernel_ttbr0 != 0 && current_ttbr0 & ADDRESS_MASK != state.kernel_ttbr0 {
        Some(state.kernel_ttbr0)
    } else {
        None
    }
}

} // verus!
