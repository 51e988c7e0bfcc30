use vstd::prelude::*;
use crate::address::PhysAddr;
use crate::address_space::{flags_check, MappingInfo, PAGE_SIZE, USER_LIMIT};
use crate::arch::table_memory::{
    keeps_present, level_index, only_cleared, present, table_index, FrameAllocator, TableMemory, TABLE_ENTRIES,
};

verus! {

pub const PTE_PRESENT: u64 = 1;
pub const PTE_WRITABLE: u64 = 2;
pub const PTE_USER: u64 = 4;
pub const PTE_HUGE: u64 = 0x80;
pub const PTE_NX: u64 = 0x8000_0000_0000_0000;
pub const ADDRESS_MASK: u64 = 0x000f_ffff_ffff_f000;
/// The flags of a table entry that leads to a user page table.
pub const USER_TABLE_FLAGS: u64 = 7;

pub open spec fn huge(entry: u64) -> bool {
    entry & PTE_HUGE != 0
}

/// The entry the hardware ends its walk on for `va` under `cr3`, as `pte_flags` reports
/// it: `None` when the top entry is absent, the last present level is a leaf, or a table
/// is out of reach; a missing or huge middle entry is reported itself.
pub open spec fn walk(mem: TableMemory, cr3: u64, va: u64) -> Option<u64> {
    match mem.read(cr3 & ADDRESS_MASK, level_index(va, 0)) {
        None => None,
        Some(e4) => if !present(e4) {
            None
        } else {
            match mem.read(e4 & ADDRESS_MASK, level_index(va, 1)) {
                None => None,
                Some(e3) => if !present(e3) || huge(e3) {
                    Some(e3)
                } else {
                    match mem.read(e3 & ADDRESS_MASK, level_index(va, 2)) {
                        None => None,
                        Some(e2) => if !present(e2) || huge(e2) {
                            Some(e2)
                        } else {
                            match mem.read(e2 & ADDRESS_MASK, level_index(va, 3)) {
                                None => None,
                                Some(e1) => if !present(e1) {
                                    None
                                } else {
                                    Some(e1)
                                },
                            }
                        },
                    }
                },
            }
        },
    }
}

/// The frame a 4 KiB page of `va` is mapped to.
pub open spec fn frame_of(mem: TableMemory, cr3: u64, va: u64) -> Option<u64> {
    match walk(mem, cr3, va) {
        Some(entry) => if present(entry) && !huge(entry) {
            Some(entry & ADDRESS_MASK)
        } else {
            None
        },
        None => None,
    }
}

/// The leaf entry for a user page `va` under the root table `root`: the three upper
/// entries must be present, user-accessible and not huge.
pub open spec fn user_leaf(mem: TableMemory, root: u64, va: u64) -> Option<u64> {
    match mem.read(root, level_index(va, 0)) {
        Some(e4) if present(e4) && e4 & PTE_USER != 0 && !huge(e4) => match mem.read(
            e4 & ADDRESS_MASK,
            level_index(va, 1),
        ) {
            Some(e3) if present(e3) && e3 & PTE_USER != 0 && !huge(e3) => match mem.read(
                e3 & ADDRESS_MASK,
                level_index(va, 2),
            ) {
                Some(e2) if present(e2) && e2 & PTE_USER != 0 && !huge(e2) => mem.read(
                    e2 & ADDRESS_MASK,
                    level_index(va, 3),
                ),
                _ => None,
            },
            _ => None,
        },
        _ => None,
    }
}

/// The leaf entry `user_space_map` writes.
pub open spec fn leaf_entry(mapping: MappingInfo) -> u64 {
    mapping.physical_frame.0 | leaf_flags(mapping.flags.writable, mapping.flags.executable)
}

/// Present and user-accessible, writable when asked, never executable unless asked.
pub open spec fn leaf_flags(writable: bool, executable: bool) -> u64 {
    let flags = PTE_PRESENT | PTE_USER;
    let flags = if writable {
        flags | PTE_WRITABLE
    } else {
        flags
    };
    if !executable {
        flags | PTE_NX
    } else {
        flags
    }
}

/// What `user_space_map` asks of a mapping before touching any table.
pub open spec fn mapping_acceptable(mapping: MappingInfo) -> bool {
    &&& flags_check(mapping.flags) is Ok
    &&& mapping.virtual_address >= PAGE_SIZE
    &&& mapping.virtual_address + PAGE_SIZE <= USER_LIMIT
    &&& mapping.virtual_address % 4096 == 0
    &&& mapping.physical_frame.0 % 4096 == 0
}

proof fn lemma_table_entry(frame: u64)
    by (bit_vector)
    ensures
        frame & !0x000f_ffff_ffff_f000u64 == 0 ==> (frame | 7u64) & 0x000f_ffff_ffff_f000u64 == frame,
        (frame | 7u64) & 1u64 != 0,
        (frame | 7u64) & 4u64 != 0,
        frame & !0x000f_ffff_ffff_f000u64 == 0 ==> (frame | 7u64) & 0x80u64 == 0,
        (frame | 7u64) != 0,
        0u64 & 1u64 == 0,
{
}

/// Steps to the table after one of the upper entries in the walk for a user page: an
/// absent entry gets a fresh zeroed table (recorded in a free slot of `tables`), a present
/// one must be a user table that is not huge. `None` when the step is refused.
fn descend<A: FrameAllocator>(
    memory: &mut TableMemory,
    frames: &mut A,
    table: u64,
    index: usize,
    tables: &mut Vec<Option<PhysAddr>>,
) -> (r: Option<u64>)
    requires
        old(memory).wf(),
        index < TABLE_ENTRIES,
    ensures
        final(memory).wf(),
        keeps_present(*old(memory), *final(memory)),
        forall|f: u64| old(memory).has(f) ==> final(memory).has(f),
        final(tables)@.len() == old(tables)@.len(),
        forall|i: int| 0 <= i < old(tables)@.len() && old(tables)@[i] is Some ==> final(tables)@[i] == old(tables)@[i],
        r matches Some(next) ==> {
            &&& final(memory).read(table, index as int) matches Some(e) && present(e) && e & PTE_USER != 0
                && !huge(e) && e & ADDRESS_MASK == next
            &&& final(memory).has(next)
        },
        old(memory).read(table, index as int) matches Some(e) && present(e) ==> *final(memory) == *old(memory),
        old(memory).read(table, index as int) is None ==> r is None && *final(memory) == *old(memory)
            && final(tables)@ == old(tables)@,
        match old(memory).read(table, index as int) {
            Some(e) => present(e) ==> final(tables)@ == old(tables)@ && r == (if e & PTE_USER != 0 && !huge(e)
                && old(memory).has(e & ADDRESS_MASK) {
                Some(e & ADDRESS_MASK)
            } else {
                None
            }),
            None => true,
        },
{
    let value = match memory.read_entry(table, index) {
        Some(v) => v,
        None => return None,
    };
    if value & PTE_PRESENT == 0 {
        let frame = match frames.alloc_frame() {
            Some(f) => f,
            None => return None,
        };
        let ghost before_add = *memory;
        if frame & !ADDRESS_MASK != 0 || !memory.add_zeroed(frame) {
            let _ = frames.free_frame(frame);
            return None;
        }
        proof {
            before_add.lemma_read(table, index as int);
            assert forall|f: u64, i: int| #[trigger] before_add.read(f, i) is Some implies memory.read(f, i)
                == before_add.read(f, i) by {
                before_add.lemma_read(f, i);
            }
        }
        let mut slot: usize = 0;
        while slot < tables.len()
            invariant
                slot <= tables@.len(),
                forall|j: int| 0 <= j < slot ==> tables@[j] is Some,
            ensures
                slot <= tables@.len(),
                slot < tables@.len() ==> tables@[slot as int] is None,
            decreases tables@.len() - slot,
        {
            if tables[slot].is_none() {
                break;
            }
            slot = slot + 1;
        }
        if slot == tables.len() {
            return None;
        }
        tables.set(slot, Some(PhysAddr(frame)));
        let entry = frame | USER_TABLE_FLAGS;
        proof {
            lemma_table_entry(frame);
        }
        let ghost before = *memory;
        let written = memory.write_entry(table, index, entry);
        assert(written);
        assert(keeps_present(before, *memory));
        Some(frame)
    } else {
        if value & PTE_USER == 0 || value & PTE_HUGE != 0 {
            return None;
        }
        let next = value & ADDRESS_MASK;
        if !memory.holds(next) {
            return None;
        }
        Some(next)
    }
}

/// Maps a user page under the root table `root`: the mapping's flags must be valid and
/// its page aligned, above page zero and inside the user half; missing tables are taken
/// from `frames` and recorded in free slots of `tables`. False when the page is already
/// mapped, a table is out of reach, an upper entry is a huge or kernel one, or no frame or
/// slot is left. The caller flushes the page from the TLB after success.
pub fn user_space_map<A: FrameAllocator>(
    memory: &mut TableMemory,
    frames: &mut A,
    root: PhysAddr,
    mapping: MappingInfo,
    tables: &mut Vec<Option<PhysAddr>>,
) -> (r: bool)
    requires
        old(memory).wf(),
    ensures
        final(memory).wf(),
        !mapping_acceptable(mapping) ==> !r && *final(memory) == *old(memory) && final(tables)@ == old(tables)@,
        r ==> mapping_acceptable(mapping),
        r ==> old(memory).read(root.0, level_index(mapping.virtual_address as u64, 0)) is Some,
        r ==> user_leaf(*final(memory), root.0, mapping.virtual_address as u64) == Some(leaf_entry(mapping)),
        r ==> !(user_leaf(*old(memory), root.0, mapping.virtual_address as u64) matches Some(e) && present(e)),
        (match user_leaf(*old(memory), root.0, mapping.virtual_address as u64) {
            Some(e) => mapping_acceptable(mapping) && !present(e),
            None => false,
        }) ==> r && final(tables)@ == old(tables)@,
        keeps_present(*old(memory), *final(memory)),
        final(tables)@.len() == old(tables)@.len(),
        forall|i: int| 0 <= i < old(tables)@.len() && old(tables)@[i] is Some ==> final(tables)@[i] == old(tables)@[i],
{
    let va = mapping.virtual_address;
    if mapping.flags.validate().is_err() || va < PAGE_SIZE || va as u64 >= USER_LIMIT
        || va as u64 + PAGE_SIZE as u64 > USER_LIMIT || va % 4096 != 0 || mapping.physical_frame.0 % 4096 != 0 {
        return false;
    }
    let va = va as u64;
    proof {
        if user_leaf(*memory, root.0, va) is Some {
            memory.lemma_read(root.0, level_index(va, 0));
            let e4 = memory.read(root.0, level_index(va, 0))->0;
            memory.lemma_read(e4 & ADDRESS_MASK, level_index(va, 1));
            let e3 = memory.read(e4 & ADDRESS_MASK, level_index(va, 1))->0;
            memory.lemma_read(e3 & ADDRESS_MASK, level_index(va, 2));
            let e2 = memory.read(e3 & ADDRESS_MASK, level_index(va, 2))->0;
            memory.lemma_read(e2 & ADDRESS_MASK, level_index(va, 3));
        }
    }
    if !memory.holds(root.0) {
        return false;
    }
    proof {
        memory.lemma_read(root.0, level_index(va, 0));
    }
    let ghost m0 = *memory;
    let ghost t0 = tables@;
    let i0 = table_index(va, 0);
    let i1 = table_index(va, 1);
    let i2 = table_index(va, 2);
    let i3 = table_index(va, 3);
    let t1 = match descend(memory, frames, root.0, i0, tables) {
        Some(t) => t,
        None => return false,
    };
    let ghost m1 = *memory;
    let t2 = match descend(memory, frames, t1, i1, tables) {
        Some(t) => t,
        None => return false,
    };
    let ghost m2 = *memory;
    let t3 = match descend(memory, frames, t2, i2, tables) {
        Some(t) => t,
        None => return false,
    };
    let ghost m3 = *memory;
    assert(keeps_present(m0, m3));
    let leaf = match memory.read_entry(t3, i3) {
        Some(e) => e,
        None => return false,
    };
    if leaf & PTE_PRESENT != 0 {
        return false;
    }
    let mut flags: u64 = PTE_PRESENT | PTE_USER;
    if mapping.flags.writable {
        flags = flags | PTE_WRITABLE;
    }
    if !mapping.flags.executable {
        flags = flags | PTE_NX;
    }
    let entry = mapping.physical_frame.0 | flags;
    assert(entry == leaf_entry(mapping));
    let written = memory.write_entry(t3, i3, entry);
    assert(written);
    proof {
        let e4 = m1.read(root.0, i0 as int)->0;
        let e3 = m2.read(t1, i1 as int)->0;
        let e2 = m3.read(t2, i2 as int)->0;
        assert(memory.read(root.0, i0 as int) == Some(e4));
        assert(memory.read(t1, i1 as int) == Some(e3));
        assert(memory.read(t2, i2 as int) == Some(e2));
        assert(user_leaf(*memory, root.0, va) == Some(entry));
        if let Some(e) = user_leaf(m0, root.0, va) {
            if present(e) {
                assert(m0.read(root.0, i0 as int) == Some(e4));
                assert(m0.read(t1, i1 as int) == Some(e3));
                assert(m0.read(t2, i2 as int) == Some(e2));
                assert(m3.read(t3, i3 as int) == Some(e));
                assert(false);
            }
        }
    }
    true
}


/// The leaf entry for `va` that `user_space_unmap` clears: the three upper entries must
/// be present and not huge, and the leaf present.
pub open spec fn mapped_leaf(mem: TableMemory, root: u64, va: u64) -> Option<u64> {
    match mem.read(root, level_index(va, 0)) {
        Some(e4) if present(e4) && !huge(e4) => match mem.read(e4 & ADDRESS_MASK, level_index(va, 1)) {
            Some(e3) if present(e3) && !huge(e3) => match mem.read(e3 & ADDRESS_MASK, level_index(va, 2)) {
                Some(e2) if present(e2) && !huge(e2) => match mem.read(e2 & ADDRESS_MASK, level_index(va, 3)) {
                    Some(e1) if present(e1) => Some(e1),
                    _ => None,
                },
                _ => None,
            },
            _ => None,
        },
        _ => None,
    }
}

/// The entry the walk for `va` ends on under `cr3` (see `walk`).
pub fn pte_flags(memory: &TableMemory, cr3: u64, va: u64) -> (r: Option<u64>)
    requires
        memory.wf(),
    ensures
        r == walk(*memory, cr3, va),
{
    let e4 = match memory.read_entry(cr3 & ADDRESS_MASK, table_index(va, 0)) {
        Some(e) => e,
        None => return None,
    };
    if e4 & PTE_PRESENT == 0 {
        return None;
    }
    let e3 = match memory.read_entry(e4 & ADDRESS_MASK, table_index(va, 1)) {
        Some(e) => e,
        None => return None,
    };
    if e3 & PTE_PRESENT == 0 || e3 & PTE_HUGE != 0 {
        return Some(e3);
    }
    let e2 = match memory.read_entry(e3 & ADDRESS_MASK, table_index(va, 2)) {
        Some(e) => e,
        None => return None,
    };
    if e2 & PTE_PRESENT == 0 || e2 & PTE_HUGE != 0 {
        return Some(e2);
    }
    let e1 = match memory.read_entry(e2 & ADDRESS_MASK, table_index(va, 3)) {
        Some(e) => e,
        None => return None,
    };
    if e1 & PTE_PRESENT == 0 {
        None
    } else {
        Some(e1)
    }
}

/// The frame of the 4 KiB page that maps `va` under `cr3`.
pub fn pte_frame(memory: &TableMemory, cr3: u64, va: u64) -> (r: Option<u64>)
    requires
        memory.wf(),
    ensures
        r == frame_of(*memory, cr3, va),
{
    let entry = match pte_flags(memory, cr3, va) {
        Some(e) => e,
        None => return None,
    };
    if entry & PTE_PRESENT != 0 && entry & PTE_HUGE == 0 {
        Some(entry & ADDRESS_MASK)
    } else {
        None
    }
}

/// The last-level table the walk for `va` reaches under `root`.
pub open spec fn leaf_table(mem: TableMemory, root: u64, va: u64) -> u64 {
    let e4 = mem.read(root, level_index(va, 0))->0;
    let e3 = mem.read(e4 & ADDRESS_MASK, level_index(va, 1))->0;
    let e2 = mem.read(e3 & ADDRESS_MASK, level_index(va, 2))->0;
    e2 & ADDRESS_MASK
}

/// Whether the last-level table for `va` holds another present entry besides its own.
pub open spec fn shares_leaf_table(mem: TableMemory, root: u64, va: u64) -> bool {
    exists|i: int|
        0 <= i < TABLE_ENTRIES && i != level_index(va, 3) && #[trigger] present_at(mem, leaf_table(mem, root, va), i)
}

/// Whether entry `index` of the table at `frame` is present.
pub open spec fn present_at(mem: TableMemory, frame: u64, index: int) -> bool {
    mem.read(frame, index) matches Some(e) && present(e)
}

/// Once the leaf entry of a mapped page is zero, and nothing else was written but zeros,
/// the page is no longer mapped.
proof fn lemma_leaf_gone(m0: TableMemory, m: TableMemory, root: u64, va: u64)
    requires
        mapped_leaf(m0, root, va) is Some,
        only_cleared(m0, m),
        m.read(leaf_table(m0, root, va), level_index(va, 3)) == Some(0u64),
    ensures
        mapped_leaf(m, root, va) is None,
{
    lemma_table_entry(0);
    let e4 = m0.read(root, level_index(va, 0))->0;
    let e3 = m0.read(e4 & ADDRESS_MASK, level_index(va, 1))->0;
    let e2 = m0.read(e3 & ADDRESS_MASK, level_index(va, 2))->0;
    assert(m.read(root, level_index(va, 0)) == Some(e4) || m.read(root, level_index(va, 0)) == Some(0u64));
    assert(m.read(e4 & ADDRESS_MASK, level_index(va, 1)) == Some(e3) || m.read(e4 & ADDRESS_MASK, level_index(va, 1))
        == Some(0u64));
    assert(m.read(e3 & ADDRESS_MASK, level_index(va, 2)) == Some(e2) || m.read(e3 & ADDRESS_MASK, level_index(va, 2))
        == Some(0u64));
}

/// Whether no entry of the table at `frame` is present.
fn table_empty(memory: &TableMemory, frame: u64) -> (r: bool)
    requires
        memory.wf(),
    ensures
        r == forall|i: int| 0 <= i < TABLE_ENTRIES ==> !(#[trigger] memory.read(frame, i) matches Some(e) && present(e)),
{
    let mut index: usize = 0;
    while index < TABLE_ENTRIES
        invariant
            memory.wf(),
            index <= TABLE_ENTRIES,
            forall|i: int| 0 <= i < index ==> !(#[trigger] memory.read(frame, i) matches Some(e) && present(e)),
        decreases TABLE_ENTRIES - index,
    {
        match memory.read_entry(frame, index) {
            Some(e) => if e & PTE_PRESENT != 0 {
                return false;
            },
            None => {},
        }
        index = index + 1;
    }
    true
}

/// Removes the user page at `va` under the root table `root` and gives back to `frames`
/// each table (recorded in `owned`) that the removal leaves empty, from the bottom up.
/// False, with nothing changed, when the page is not mapped through present tables that
/// are not huge; false after the page is gone when a table to be given back is not
/// recorded in `owned` or the allocator refuses it. The caller flushes the page from the
/// TLB.
pub fn user_space_unmap<A: FrameAllocator>(
    memory: &mut TableMemory,
    frames: &mut A,
    root: PhysAddr,
    va: usize,
    owned: &mut Vec<Option<PhysAddr>>,
) -> (r: bool)
    requires
        old(memory).wf(),
    ensures
        final(memory).wf(),
        mapped_leaf(*old(memory), root.0, va as u64) is None ==> !r && *final(memory) == *old(memory)
            && final(owned)@ == old(owned)@,
        r ==> mapped_leaf(*old(memory), root.0, va as u64) is Some,
        mapped_leaf(*old(memory), root.0, va as u64) is Some ==> mapped_leaf(*final(memory), root.0, va as u64) is None,
        mapped_leaf(*old(memory), root.0, va as u64) is Some && shares_leaf_table(*old(memory), root.0, va as u64) ==> r
            && final(owned)@ == old(owned)@,
        r && root.0 & !ADDRESS_MASK == 0 ==> frame_of(*final(memory), root.0, va as u64) is None,
        only_cleared(*old(memory), *final(memory)),
        final(owned)@.len() == old(owned)@.len(),
        forall|i: int| 0 <= i < old(owned)@.len() ==> final(owned)@[i] == old(owned)@[i] || final(owned)@[i] is None,
{
    let address = va as u64;
    let ghost m0 = *memory;
    let i0 = table_index(address, 0);
    let i1 = table_index(address, 1);
    let i2 = table_index(address, 2);
    let i3 = table_index(address, 3);
    let e4 = match memory.read_entry(root.0, i0) {
        Some(e) => e,
        None => return false,
    };
    if e4 & PTE_PRESENT == 0 || e4 & PTE_HUGE != 0 {
        return false;
    }
    let t1 = e4 & ADDRESS_MASK;
    let e3 = match memory.read_entry(t1, i1) {
        Some(e) => e,
        None => return false,
    };
    if e3 & PTE_PRESENT == 0 || e3 & PTE_HUGE != 0 {
        return false;
    }
    let t2 = e3 & ADDRESS_MASK;
    let e2 = match memory.read_entry(t2, i2) {
        Some(e) => e,
        None => return false,
    };
    if e2 & PTE_PRESENT == 0 || e2 & PTE_HUGE != 0 {
        return false;
    }
    let t3 = e2 & ADDRESS_MASK;
    let e1 = match memory.read_entry(t3, i3) {
        Some(e) => e,
        None => return false,
    };
    if e1 & PTE_PRESENT == 0 {
        return false;
    }
    assert(mapped_leaf(m0, root.0, address) == Some(e1));
    let written = memory.write_entry(t3, i3, 0);
    proof {
        m0.lemma_read(t3, i3 as int);
        lemma_table_entry(0);
        assert(leaf_table(m0, root.0, address) == t3);
        lemma_leaf_gone(m0, *memory, root.0, address);
    }
    let ghost m_leaf = *memory;
    let ghost shared = shares_leaf_table(m0, root.0, address);
    let children: [u64; 3] = [t1, t2, t3];
    let parents: [(u64, usize); 3] = [(root.0, i0), (t1, i1), (t2, i2)];
    let mut depth: usize = 3;
    while depth > 0
        invariant_except_break
            shared ==> depth == 3,
        invariant
            memory.wf(),
            depth <= 3,
            m0 == *old(memory),
            address == va as u64,
            mapped_leaf(m0, root.0, address) == Some(e1),
            only_cleared(m0, *memory),
            memory.read(t3, i3 as int) == Some(0u64),
            children@ == seq![t1, t2, t3],
            parents@ == seq![(root.0, i0), (t1, i1), (t2, i2)],
            i0 < TABLE_ENTRIES && i1 < TABLE_ENTRIES && i2 < TABLE_ENTRIES,
            owned@.len() == old(owned)@.len(),
            forall|i: int| 0 <= i < old(owned)@.len() ==> owned@[i] == old(owned)@[i] || owned@[i] is None,
            leaf_table(m0, root.0, address) == t3,
            i3 == level_index(address, 3),
            m_leaf.read(t3, i3 as int) == Some(0u64),
            forall|i: int| i != i3 ==> m_leaf.read(t3, i) == m0.read(t3, i),
            shared == shares_leaf_table(m0, root.0, address),
            shared ==> *memory == m_leaf && owned@ == old(owned)@,
        decreases depth,
    {
        depth = depth - 1;
        let child = children[depth];
        let (parent_table, parent_index) = parents[depth];
        if !table_empty(memory, child) {
            break;
        }
        proof {
            if shared {
                let i = choose|i: int|
                    0 <= i < TABLE_ENTRIES && i != level_index(address, 3) && #[trigger] present_at(
                        m0,
                        leaf_table(m0, root.0, address),
                        i,
                    );
                assert(memory.read(child, i) == m0.read(t3, i));
                assert(present_at(*memory, child, i));
            }
        }
        let parent_entry = match memory.read_entry(parent_table, parent_index) {
            Some(e) => e,
            None => {
                proof {
                    lemma_leaf_gone(m0, *memory, root.0, address);
                }
                return false;
            },
        };
        let child_frame = parent_entry & ADDRESS_MASK;
        let mut slot: usize = 0;
        while slot < owned.len()
            invariant
                slot <= owned@.len(),
            ensures
                slot <= owned@.len(),
                slot < owned@.len() ==> owned@[slot as int] == Some(PhysAddr(child_frame)),
            decreases owned@.len() - slot,
        {
            match owned[slot] {
                Some(frame) => if frame.0 == child_frame {
                    break;
                },
                None => {},
            }
            slot = slot + 1;
        }
        if slot == owned.len() {
            proof {
                lemma_leaf_gone(m0, *memory, root.0, address);
            }
            return false;
        }
        if !frames.free_frame(child_frame) {
            proof {
                lemma_leaf_gone(m0, *memory, root.0, address);
            }
            return false;
        }
        let ghost before = *memory;
        let _ = memory.write_entry(parent_table, parent_index, 0);
        assert(only_cleared(before, *memory));
        owned.set(slot, None);
    }
    proof {
        let m = *memory;
        assert(m.read(root.0, i0 as int) == Some(e4) || m.read(root.0, i0 as int) == Some(0u64));
        if mapped_leaf(m, root.0, address) is Some {
            assert(m.read(root.0, i0 as int) == Some(e4));
            assert(m.read(t1, i1 as int) == Some(e3) || m.read(t1, i1 as int) == Some(0u64));
            assert(m.read(t1, i1 as int) == Some(e3));
            assert(m.read(t2, i2 as int) == Some(e2) || m.read(t2, i2 as int) == Some(0u64));
            assert(m.read(t2, i2 as int) == Some(e2));
            assert(false);
        }
        if root.0 & !ADDRESS_MASK == 0 && frame_of(m, root.0, address) is Some {
            lemma_leaf_bits(0, root.0, false, false);
            assert(m.read(root.0, i0 as int) == Some(e4));
            assert(m.read(t1, i1 as int) == Some(e3) || m.read(t1, i1 as int) == Some(0u64));
            assert(m.read(t1, i1 as int) == Some(e3));
            assert(m.read(t2, i2 as int) == Some(e2) || m.read(t2, i2 as int) == Some(0u64));
            assert(m.read(t2, i2 as int) == Some(e2));
            assert(false);
        }
    }
    true
}


/// Adding tables and filling absent entries never changes a page that is mapped: when
/// every present entry survives from `before` to `after`, so does every translation.
pub proof fn law_present_entries_keep_translations(before: TableMemory, after: TableMemory, cr3: u64, va: u64)
    requires
        keeps_present(before, after),
    ensures
        frame_of(before, cr3, va) is Some ==> frame_of(after, cr3, va) == frame_of(before, cr3, va),
{
    if frame_of(before, cr3, va) is Some {
        let e4 = before.read(cr3 & ADDRESS_MASK, level_index(va, 0))->0;
        assert(after.read(cr3 & ADDRESS_MASK, level_index(va, 0)) == Some(e4));
        let e3 = before.read(e4 & ADDRESS_MASK, level_index(va, 1))->0;
        assert(after.read(e4 & ADDRESS_MASK, level_index(va, 1)) == Some(e3));
        let e2 = before.read(e3 & ADDRESS_MASK, level_index(va, 2))->0;
        assert(after.read(e3 & ADDRESS_MASK, level_index(va, 2)) == Some(e2));
        let e1 = before.read(e2 & ADDRESS_MASK, level_index(va, 3))->0;
        assert(after.read(e2 & ADDRESS_MASK, level_index(va, 3)) == Some(e1));
    }
}

/// A page whose leaf entry `user_space_map` wrote under an aligned root translates to the
/// mapping's frame.
pub proof fn law_mapped_page_translates(mem: TableMemory, root: u64, mapping: MappingInfo)
    requires
        user_leaf(mem, root, mapping.virtual_address as u64) == Some(leaf_entry(mapping)),
        root & !ADDRESS_MASK == 0,
        mapping.physical_frame.0 & !ADDRESS_MASK == 0,
    ensures
        frame_of(mem, root, mapping.virtual_address as u64) == Some(mapping.physical_frame.0),
{
    lemma_leaf_bits(mapping.physical_frame.0, root, mapping.flags.writable, mapping.flags.executable);
}

/// The bits of a leaf entry: present, not huge, and the frame under the address mask when
/// it is aligned; an aligned root is its own table address.
proof fn lemma_leaf_bits(frame: u64, root: u64, writable: bool, executable: bool)
    by (bit_vector)
    ensures
        (frame | leaf_flags(writable, executable)) & 1u64 != 0,
        frame & !0x000f_ffff_ffff_f000u64 == 0 ==> (frame | leaf_flags(writable, executable)) & 0x80u64 == 0,
        frame & !0x000f_ffff_ffff_f000u64 == 0 ==> (frame | leaf_flags(writable, executable))
            & 0x000f_ffff_ffff_f000u64 == frame,
        root & !0x000f_ffff_ffff_f000u64 == 0 ==> root & 0x000f_ffff_ffff_f000u64 == root,
{
}

} // verus!
