use vstd::prelude::*;

verus! {

/// Entries in one page table.
pub const TABLE_ENTRIES: usize = 512;
/// The most tables the memory holds (four gibibytes of them).
pub const MAX_TABLES: usize = 0x10_0000;

/// The physical pages that hold page tables, as the kernel reaches them through its
/// mapping of physical memory: each known frame holds `TABLE_ENTRIES` 64-bit entries.
/// A frame the kernel cannot reach is simply not held.
pub struct TableMemory {
    frames: Vec<u64>,
    entries: Vec<u64>,
}

/// The index into the table at `level` (0 is the top of four) that translates `va`.
pub open spec fn level_index(va: u64, level: int) -> int {
    ((va >> ((39 - 9 * level) as u64)) & 0x1ff) as int
}

pub fn table_index(va: u64, level: usize) -> (r: usize)
    requires
        level < 4,
    ensures
        r == level_index(va, level as int),
        r < TABLE_ENTRIES,
{
    let shift: u64 = 39 - 9 * level as u64;
    let index = (va >> shift) & 0x1ff;
    assert(index <= 0x1ff) by (bit_vector)
        requires
            index == (va >> shift) & 0x1ff,
    ;
    index as usize
}

/// Bit 0 of an entry: present on x86_64, valid on AArch64.
pub open spec fn present(entry: u64) -> bool {
    entry & 1 != 0
}

/// Every present entry of `a` is still there in `b`.
pub open spec fn keeps_present(a: TableMemory, b: TableMemory) -> bool {
    forall|f: u64, i: int| #[trigger] a.read(f, i) matches Some(e) ==> (present(e) ==> b.read(f, i) == Some(e))
}

/// `b` differs from `a` at most in entries that became zero.
pub open spec fn only_cleared(a: TableMemory, b: TableMemory) -> bool {
    &&& forall|f: u64| a.has(f) == b.has(f)
    &&& forall|f: u64, i: int| #[trigger] b.read(f, i) == a.read(f, i) || b.read(f, i) == Some(0u64)
}

/// The physical frame allocator the page-table code draws new tables from. The kernel
/// provides it; nothing is assumed of what it hands out.
pub trait FrameAllocator {
    fn alloc_frame(&mut self) -> Option<u64>;

    fn free_frame(&mut self, frame: u64) -> bool;
}

impl TableMemory {
    pub closed spec fn wf(&self) -> bool {
        &&& self.entries@.len() == TABLE_ENTRIES * self.frames@.len()
        &&& self.frames@.no_duplicates()
        &&& self.frames@.len() <= MAX_TABLES
    }

    /// How many tables are held.
    pub closed spec fn count(&self) -> nat {
        self.frames@.len()
    }

    /// Whether the frame holds a table.
    pub closed spec fn has(&self, frame: u64) -> bool {
        self.frames@.contains(frame)
    }

    /// Entry `index` of the table at `frame`; `None` when the frame holds no table or the
    /// index is outside it.
    pub closed spec fn read(&self, frame: u64, index: int) -> Option<u64> {
        if self.frames@.contains(frame) && 0 <= index < TABLE_ENTRIES {
            Some(self.entries@[TABLE_ENTRIES * self.frames@.index_of(frame) + index])
        } else {
            None
        }
    }

    /// An entry can be read exactly in the tables that are held.
    pub proof fn lemma_read(&self, frame: u64, index: int)
        ensures
            self.read(frame, index) is Some <==> (self.has(frame) && 0 <= index < TABLE_ENTRIES),
    {
    }

    proof fn lemma_slot(&self, k: int)
        requires
            self.wf(),
            0 <= k < self.frames@.len(),
        ensures
            self.frames@.contains(self.frames@[k]),
            self.frames@.index_of(self.frames@[k]) == k,
    {
        assert(self.frames@[k] == self.frames@[k]);
        let f = self.frames@[k];
        assert(self.frames@.contains(f));
        let j = self.frames@.index_of(f);
        assert(0 <= j < self.frames@.len() && self.frames@[j] == f);
    }

    /// Memory that holds no tables.
    pub fn new() -> (r: Self)
        ensures
            r.wf(),
            r.count() == 0,
            forall|f: u64| !r.has(f),
            forall|f: u64, i: int| r.read(f, i) is None,
    {
        TableMemory { frames: Vec::new(), entries: Vec::new() }
    }

    /// The position of `frame` among the held tables.
    fn slot_of(&self, frame: u64) -> (r: Option<usize>)
        requires
            self.wf(),
        ensures
            r is None <==> !self.has(frame),
            r matches Some(k) ==> k < self.frames@.len() && self.frames@[k as int] == frame
                && self.frames@.index_of(frame) == k,
    {
        let mut k: usize = 0;
        while k < self.frames.len()
            invariant
                self.wf(),
                k <= self.frames@.len(),
                forall|j: int| 0 <= j < k ==> self.frames@[j] != frame,
            decreases self.frames@.len() - k,
        {
            if self.frames[k] == frame {
                proof {
                    self.lemma_slot(k as int);
                }
                return Some(k);
            }
            k = k + 1;
        }
        None
    }

    pub fn holds(&self, frame: u64) -> (r: bool)
        requires
            self.wf(),
        ensures
            r == self.has(frame),
    {
        self.slot_of(frame).is_some()
    }

    pub fn read_entry(&self, frame: u64, index: usize) -> (r: Option<u64>)
        requires
            self.wf(),
        ensures
            r == self.read(frame, index as int),
    {
        if index >= TABLE_ENTRIES {
            return None;
        }
        match self.slot_of(frame) {
            None => None,
            Some(k) => {
                assert(TABLE_ENTRIES * k + index < TABLE_ENTRIES * self.frames@.len()) by (nonlinear_arith)
                    requires
                        k < self.frames@.len(),
                        index < TABLE_ENTRIES,
                ;
                Some(self.entries[TABLE_ENTRIES * k + index])
            },
        }
    }

    /// Writes entry `index` of the table at `frame`; false, with nothing written, when
    /// the frame holds no table or the index is outside it.
    pub fn write_entry(&mut self, frame: u64, index: usize, value: u64) -> (r: bool)
        requires
            old(self).wf(),
        ensures
            final(self).wf(),
            final(self).count() == old(self).count(),
            r == (old(self).has(frame) && index < TABLE_ENTRIES),
            forall|f: u64| final(self).has(f) == old(self).has(f),
            forall|f: u64, i: int|
                #![trigger final(self).read(f, i)]
                final(self).read(f, i) == if r && f == frame && i == index {
                    Some(value)
                } else {
                    old(self).read(f, i)
                },
    {
        if index >= TABLE_ENTRIES {
            return false;
        }
        match self.slot_of(frame) {
            None => false,
            Some(k) => {
                let ghost before = *self;
                assert(TABLE_ENTRIES * k + index < TABLE_ENTRIES * self.frames@.len()) by (nonlinear_arith)
                    requires
                        k < self.frames@.len(),
                        index < TABLE_ENTRIES,
                ;
                self.entries.set(TABLE_ENTRIES * k + index, value);
                proof {
                    assert forall|f: u64, i: int| #![trigger self.read(f, i)]
                        self.read(f, i) == if f == frame && i == index {
                            Some(value)
                        } else {
                            before.read(f, i)
                        } by {
                        if self.frames@.contains(f) && 0 <= i < TABLE_ENTRIES {
                            let j = self.frames@.index_of(f);
                            if f != frame {
                                assert(j != k as int);
                                assert(TABLE_ENTRIES * j + i != TABLE_ENTRIES * k + index) by (nonlinear_arith)
                                    requires
                                        j != k,
                                        0 <= i < TABLE_ENTRIES,
                                        index < TABLE_ENTRIES,
                                ;
                            }
                        }
                    }
                }
                true
            },
        }
    }

    /// Takes `frame` in as a new table of zero entries; false, with nothing changed, when
    /// the frame already holds a table or `MAX_TABLES` are held.
    pub fn add_zeroed(&mut self, frame: u64) -> (r: bool)
        requires
            old(self).wf(),
        ensures
            final(self).wf(),
            r == (!old(self).has(frame) && old(self).count() < MAX_TABLES),
            r ==> final(self).count() == old(self).count() + 1,
            !r ==> final(self).count() == old(self).count(),
            forall|f: u64| final(self).has(f) == (old(self).has(f) || (r && f == frame)),
            forall|f: u64, i: int|
                #![trigger final(self).read(f, i)]
                final(self).read(f, i) == if r && f == frame && 0 <= i < TABLE_ENTRIES {
                    Some(0u64)
                } else {
                    old(self).read(f, i)
                },
    {
        if self.frames.len() >= MAX_TABLES || self.holds(frame) {
            return false;
        }
        let ghost before = *self;
        let n = self.frames.len();
        self.frames.push(frame);
        let mut i: usize = 0;
        while i < TABLE_ENTRIES
            invariant
                i <= TABLE_ENTRIES,
                self.frames@ == before.frames@.push(frame),
                self.entries@.len() == before.entries@.len() + i,
                before.entries@.len() == TABLE_ENTRIES * n,
                n == before.frames@.len(),
                forall|j: int| 0 <= j < before.entries@.len() ==> self.entries@[j] == before.entries@[j],
                forall|j: int| before.entries@.len() <= j < self.entries@.len() ==> self.entries@[j] == 0,
            decreases TABLE_ENTRIES - i,
        {
            self.entries.push(0);
            i = i + 1;
        }
        proof {
            assert(self.frames@.no_duplicates()) by {
                assert forall|a: int, b: int|
                    0 <= a < self.frames@.len() && 0 <= b < self.frames@.len() && a != b implies self.frames@[a]
                    != self.frames@[b] by {
                    if a == n as int {
                        assert(!before.frames@.contains(frame));
                        assert(before.frames@[b] == self.frames@[b]);
                    } else if b == n as int {
                        assert(!before.frames@.contains(frame));
                        assert(before.frames@[a] == self.frames@[a]);
                    }
                }
            }
            assert(self.entries@.len() == TABLE_ENTRIES * self.frames@.len());
            self.lemma_slot(n as int);
            assert forall|f: u64| #[trigger] self.has(f) == (before.has(f) || f == frame) by {
                if before.frames@.contains(f) {
                    let j = choose|j: int| 0 <= j < before.frames@.len() && before.frames@[j] == f;
                    assert(self.frames@[j] == f);
                }
                if self.frames@.contains(f) && f != frame {
                    let j = choose|j: int| 0 <= j < self.frames@.len() && self.frames@[j] == f;
                    assert(j < n);
                    assert(before.frames@[j] == f);
                }
            }
            assert forall|f: u64, i: int| #![trigger self.read(f, i)]
                self.read(f, i) == if f == frame && 0 <= i < TABLE_ENTRIES {
                    Some(0u64)
                } else {
                    before.read(f, i)
                } by {
                if f != frame && before.frames@.contains(f) && 0 <= i < TABLE_ENTRIES {
                    let j = choose|j: int| 0 <= j < before.frames@.len() && before.frames@[j] == f;
                    before.lemma_slot(j);
                    self.lemma_slot(j);
                    assert(TABLE_ENTRIES * j + i < TABLE_ENTRIES * n) by (nonlinear_arith)
                        requires
                            0 <= j < n,
                            0 <= i < TABLE_ENTRIES,
                    ;
                }
                if f == frame && 0 <= i < TABLE_ENTRIES {
                    assert(TABLE_ENTRIES * n + i >= before.entries@.len());
                }
            }
        }
        true
    }
}

} // verus!
