use vstd::prelude::*;
use crate::address::PhysAddr;
use crate::address_space::{FrameRequest, MappingInfo, Platform, PlatformRequest};
use crate::arch::table_memory::{FrameAllocator, TableMemory};
use crate::arch::x86_64::paging::{frame_of, law_mapped_page_translates, user_space_map, user_space_unmap, ADDRESS_MASK};

verus! {

/// Frames handed out one after another from a window of pages; returned frames are
/// kept in order.
pub struct FrameWindow {
    pub next: u64,
    pub limit: u64,
    pub freed: Vec<u64>,
}

impl FrameAllocator for FrameWindow {
    fn alloc_frame(&mut self) -> Option<u64> {
        if self.next >= self.limit || self.next > u64::MAX - 4096 {
            return None;
        }
        let frame = self.next;
        self.next = frame + 4096;
        Some(frame)
    }

    fn free_frame(&mut self, frame: u64) -> bool {
        self.freed.push(frame);
        true
    }
}

/// A platform whose page tables are the x86_64 tables of `paging`, held in
/// `TableMemory`: frames, tables included, come from a `FrameWindow`, a root is prepared
/// by taking its frame in as an empty table, and mappings are installed and removed by
/// `paging::user_space_map` and `user_space_unmap`. Physical writes are accepted and
/// recorded only.
pub struct PagedPlatform {
    memory: TableMemory,
    frames: FrameWindow,
    log: Ghost<Seq<PlatformRequest>>,
    bytes_log: Ghost<Seq<Seq<u8>>>,
    frame_log: Ghost<Seq<FrameRequest>>,
}

impl PagedPlatform {
    #[verifier::type_invariant]
    spec fn tables_well_formed(&self) -> bool {
        self.memory.wf()
    }

    /// The page tables as they stand.
    pub closed spec fn tables(&self) -> TableMemory {
        self.memory
    }

    /// No tables, and `frames` free frames from `first` on.
    pub fn new(first: u64, frames: u64) -> (r: Self)
        requires
            first + frames * 4096 <= u64::MAX,
        ensures
            r.requests().len() == 0,
            r.written().len() == 0,
            r.tables().count() == 0,
    {
        PagedPlatform {
            memory: TableMemory::new(),
            frames: FrameWindow { next: first, limit: first + frames * 4096, freed: Vec::new() },
            log: Ghost(Seq::empty()),
            bytes_log: Ghost(Seq::empty()),
            frame_log: Ghost(Seq::empty()),
        }
    }

    /// Takes the tables and the frames out, leaving empty ones in their place.
    fn take_parts(&mut self) -> (r: (TableMemory, FrameWindow))
        ensures
            r.0 == old(self).tables(),
            r.0.wf(),
            final(self).requests() == old(self).requests(),
            final(self).written() == old(self).written(),
            final(self).frame_requests() == old(self).frame_requests(),
    {
        proof {
            use_type_invariant(&*self);
        }
        let mut memory = TableMemory::new();
        let mut frames = FrameWindow { next: 0, limit: 0, freed: Vec::new() };
        std::mem::swap(&mut memory, &mut self.memory);
        std::mem::swap(&mut frames, &mut self.frames);
        (memory, frames)
    }

    /// Puts tables and frames back.
    fn put_parts(&mut self, memory: TableMemory, frames: FrameWindow)
        requires
            memory.wf(),
        ensures
            final(self).tables() == memory,
            final(self).requests() == old(self).requests(),
            final(self).written() == old(self).written(),
            final(self).frame_requests() == old(self).frame_requests(),
    {
        self.memory = memory;
        self.frames = frames;
    }

    /// The page tables, for lookups.
    pub fn memory(&self) -> (r: &TableMemory)
        ensures
            *r == self.tables(),
            r.wf(),
    {
        proof {
            use_type_invariant(self);
        }
        &self.memory
    }
}

impl Platform for PagedPlatform {
    closed spec fn requests(&self) -> Seq<PlatformRequest> {
        self.log@
    }

    closed spec fn written(&self) -> Seq<Seq<u8>> {
        self.bytes_log@
    }

    closed spec fn frame_requests(&self) -> Seq<FrameRequest> {
        self.frame_log@
    }

    fn alloc_frame(&mut self) -> (r: Option<u64>) {
        let (memory, mut frames) = self.take_parts();
        let r = frames.alloc_frame();
        self.put_parts(memory, frames);
        proof {
            self.frame_log@ = self.frame_log@.push(FrameRequest::Alloc(r));
        }
        r
    }

    fn free_frame(&mut self, frame: u64) -> (r: bool) {
        let (memory, mut frames) = self.take_parts();
        let r = frames.free_frame(frame);
        self.put_parts(memory, frames);
        proof {
            self.frame_log@ = self.frame_log@.push(FrameRequest::Free(frame, r));
        }
        r
    }

    fn zero_physical_page(&mut self, frame: PhysAddr) -> (r: bool) {
        proof {
            use_type_invariant(&*self);
            self.frame_log@ = self.frame_log@.push(FrameRequest::Zero(frame, true));
        }
        true
    }

    fn user_space_prepare(&mut self, root: PhysAddr) -> (r: bool)
        ensures
            r ==> final(self).tables().has(root.0),
    {
        let (mut memory, frames) = self.take_parts();
        let ok = memory.holds(root.0) || memory.add_zeroed(root.0);
        self.put_parts(memory, frames);
        proof {
            self.log@ = self.log@.push(PlatformRequest::PrepareRoot(root, ok));
        }
        ok
    }

    /// Installs the mapping in the tables; an accepted mapping under aligned frames
    /// translates to its frame.
    fn user_space_map(
        &mut self,
        root: PhysAddr,
        mapping: MappingInfo,
        tables: &mut Vec<Option<PhysAddr>>,
    ) -> (r: bool)
        ensures
            r && root.0 & !ADDRESS_MASK == 0 && mapping.physical_frame.0 & !ADDRESS_MASK == 0 ==> frame_of(
                final(self).tables(),
                root.0,
                mapping.virtual_address as u64,
            ) == Some(mapping.physical_frame.0),
    {
        let (mut memory, mut frames) = self.take_parts();
        let ok = user_space_map(&mut memory, &mut frames, root, mapping, tables);
        proof {
            if ok && root.0 & !ADDRESS_MASK == 0 && mapping.physical_frame.0 & !ADDRESS_MASK == 0 {
                law_mapped_page_translates(memory, root.0, mapping);
            }
        }
        self.put_parts(memory, frames);
        proof {
            self.log@ = self.log@.push(PlatformRequest::MapPage(root, mapping, ok));
        }
        ok
    }

    fn user_space_unmap(
        &mut self,
        root: PhysAddr,
        virtual_address: usize,
        tables: &mut Vec<Option<PhysAddr>>,
    ) -> (r: bool) {
        let (mut memory, mut frames) = self.take_parts();
        let r = user_space_unmap(&mut memory, &mut frames, root, virtual_address, tables);
        self.put_parts(memory, frames);
        r
    }

    fn user_space_reset(&mut self, root: PhysAddr) {
    }

    fn restore_kernel_address_space(&mut self) {
    }

    fn write_physical(&mut self, frame: PhysAddr, offset: usize, bytes: &[u8]) -> (r: bool) {
        proof {
            use_type_invariant(&*self);
            self.log@ = self.log@.push(PlatformRequest::WritePhysical(frame, offset, true));
            self.bytes_log@ = self.bytes_log@.push(bytes@);
        }
        true
    }
}

} // verus!
