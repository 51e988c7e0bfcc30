use vstd::prelude::*;
use crate::address::PhysAddr;
use crate::vm::{FaultInfo, FaultKind, FaultReason, FaultResult};

verus! {

pub const PAGE_SIZE: usize = 4096;
/// First address above the user half of the address space (x86_64 layout).
pub const USER_LIMIT: u64 = 0x0000_8000_0000_0000;
pub const MAX_MAPPINGS: usize = 128;
pub const MAX_TABLE_FRAMES: usize = 192;
pub const INITIAL_STACK_PAGES: usize = 2;
pub const MAX_STACK_PAGES: usize = 8;

/// Identifier of the process that owns an address space.
#[derive(Clone, Copy, Debug, PartialEq, Eq, Structural)]
pub struct ProcessId(pub u32);

impl ProcessId {
    /// The first user process.
    pub fn init() -> (r: Self)
        ensures
            r.0 == 1,
    {
        ProcessId(1)
    }
}

#[derive(Clone, Copy, Debug, PartialEq, Eq, Structural)]
pub struct PageFlags {
    pub user: bool,
    pub readable: bool,
    pub writable: bool,
    pub executable: bool,
}

#[derive(Clone, Copy, Debug, PartialEq, Eq, Structural)]
pub enum MappingKind {
    Anonymous,
    Stack,
}

#[derive(Clone, Copy, Debug, PartialEq, Eq, Structural)]
pub struct MappingInfo {
    pub virtual_address: usize,
    pub physical_frame: PhysAddr,
    pub flags: PageFlags,
    pub kind: MappingKind,
}

/// One physical write of a copy into user memory: `count` bytes from `start` of the
/// data go to `offset` within `frame`.
#[derive(Clone, Copy, Debug, PartialEq, Eq, Structural)]
pub struct LoadChunk {
    pub frame: PhysAddr,
    pub offset: usize,
    pub start: usize,
    pub count: usize,
}

#[derive(Clone, Copy, Debug, PartialEq, Eq, Structural)]
pub enum Error {
    NoFrames,
    MappingCapacity,
    InvalidAddress,
    Unaligned,
    Overlap,
    GuardPage,
    KernelMapping,
    WriteExecute,
    NoAccess,
    InvalidState,
    FrameReturn,
    HardwareUnavailable,
    HardwareMapping,
}

/// What `PageFlags::validate` decides.
pub open spec fn flags_check(flags: PageFlags) -> Result<(), Error> {
    if !flags.user {
        Err(Error::KernelMapping)
    } else if flags.writable && flags.executable {
        Err(Error::WriteExecute)
    } else if !flags.readable && !flags.writable && !flags.executable {
        Err(Error::NoAccess)
    } else {
        Ok(())
    }
}

impl PageFlags {
    pub open spec fn spec_user_rw() -> PageFlags {
        PageFlags { user: true, readable: true, writable: true, executable: false }
    }

    pub fn user_read() -> (r: Self)
        ensures
            r == (PageFlags { user: true, readable: true, writable: false, executable: false }),
    {
        PageFlags { user: true, readable: true, writable: false, executable: false }
    }

    pub fn user_rw() -> (r: Self)
        ensures
            r == (PageFlags { user: true, readable: true, writable: true, executable: false }),
    {
        PageFlags { user: true, readable: true, writable: true, executable: false }
    }

    pub fn user_rx() -> (r: Self)
        ensures
            r == (PageFlags { user: true, readable: true, writable: false, executable: true }),
    {
        PageFlags { user: true, readable: true, writable: false, executable: true }
    }

    /// User pages only, never writable and executable at once, and some access.
    pub fn validate(self) -> (r: Result<(), Error>)
        ensures
            r == flags_check(self),
    {
        if !self.user {
            return Err(Error::KernelMapping);
        }
        if self.writable && self.executable {
            return Err(Error::WriteExecute);
        }
        if !self.readable && !self.writable && !self.executable {
            return Err(Error::NoAccess);
        }
        Ok(())
    }
}

/// What `validate_page` decides for a user page address.
pub open spec fn page_check(virtual_address: int) -> Result<(), Error> {
    if virtual_address % (PAGE_SIZE as int) != 0 {
        Err(Error::Unaligned)
    } else if virtual_address + PAGE_SIZE > usize::MAX {
        Err(Error::InvalidAddress)
    } else if virtual_address < PAGE_SIZE || virtual_address + PAGE_SIZE > USER_LIMIT {
        Err(Error::InvalidAddress)
    } else {
        Ok(())
    }
}

/// A page-aligned address whose whole page lies in the user range above page zero.
pub open spec fn valid_user_page(virtual_address: int) -> bool {
    page_check(virtual_address) is Ok
}

/// Checks that a user page address is aligned and inside the user range.
pub fn validate_page(virtual_address: usize) -> (r: Result<(), Error>)
    ensures
        r == page_check(virtual_address as int),
{
    if virtual_address % PAGE_SIZE != 0 {
        return Err(Error::Unaligned);
    }
    let end = match virtual_address.checked_add(PAGE_SIZE) {
        Some(end) => end,
        None => return Err(Error::InvalidAddress),
    };
    if virtual_address < PAGE_SIZE || end as u64 > USER_LIMIT {
        return Err(Error::InvalidAddress);
    }
    Ok(())
}

/// Rounds `value` up to the alignment mask given by `alignment` (a power of two),
/// or `None` when the rounding overflows.
pub fn align_up(value: usize, alignment: usize) -> (r: Option<usize>)
    requires
        alignment >= 1,
    ensures
        r.is_some() <==> value + (alignment - 1) <= usize::MAX,
        r.is_some() ==> r.unwrap() == ((value + (alignment - 1)) as usize) & !((alignment - 1) as usize),
{
    match value.checked_add(alignment - 1) {
        Some(v) => Some(v & !(alignment - 1)),
        None => None,
    }
}

/// The page containing `address`.
pub open spec fn page_of(address: usize) -> usize {
    address & !((PAGE_SIZE - 1) as usize)
}

pub fn page_base(address: usize) -> (r: usize)
    ensures
        r == page_of(address),
        r <= address,
        r % PAGE_SIZE == 0,
        address - r < PAGE_SIZE,
{
    let r = address & !(PAGE_SIZE - 1);
    assert(r <= address && r % 4096 == 0 && address - r < 4096) by (bit_vector)
        requires r == address & !(4095usize);
    r
}

pub const ASLR_MULTIPLIER: u64 = 0x9e37_79b9_7f4a_7c15;

/// Source of address-space layout randomization: a fixed seed per process.
#[derive(Clone, Copy, Debug, PartialEq, Eq, Structural)]
pub struct AslrHook {
    pub seed: u64,
}

/// The base that `AslrHook::choose_base` picks, or `None`.
pub open spec fn aslr_choice(seed: u64, hint: usize, span: usize, alignment: usize) -> Option<usize> {
    if span == 0 || !crate::address::is_pow2(alignment as int) {
        None
    } else if span + (PAGE_SIZE - 1) > usize::MAX {
        None
    } else {
        let span_pages = ((span + (PAGE_SIZE - 1)) as usize) & !((PAGE_SIZE - 1) as usize);
        let mask = (alignment - 1) as usize;
        let jitter = seed.wrapping_mul(ASLR_MULTIPLIER) as usize;
        if hint + (jitter & mask) > usize::MAX {
            None
        } else {
            let base = ((hint + (jitter & mask)) as usize) & !mask;
            if base + span_pages > usize::MAX {
                None
            } else if base < PAGE_SIZE || base + span_pages > USER_LIMIT {
                None
            } else {
                Some(base)
            }
        }
    }
}

impl AslrHook {
    pub fn new(seed: u64) -> (r: Self)
        ensures
            r.seed == seed,
    {
        AslrHook { seed }
    }

    /// Picks an `alignment`-aligned base near `hint` for `span` bytes, jittered by the
    /// seed, such that the page-rounded span fits below the user limit.
    pub fn choose_base(self, hint: usize, span: usize, alignment: usize) -> (r: Option<usize>)
        ensures
            r == aslr_choice(self.seed, hint, span, alignment),
    {
        if span == 0 || !crate::address::is_power_of_two(alignment as u64) {
            return None;
        }
        let span = match align_up(span, PAGE_SIZE) {
            Some(s) => s,
            None => return None,
        };
        let alignment_mask = alignment - 1;
        let jitter = self.seed.wrapping_mul(ASLR_MULTIPLIER) as usize;
        let base = match hint.checked_add(jitter & alignment_mask) {
            Some(b) => b & !alignment_mask,
            None => return None,
        };
        let end = match base.checked_add(span) {
            Some(e) => e,
            None => return None,
        };
        if base < PAGE_SIZE || end as u64 > USER_LIMIT {
            return None;
        }
        Some(base)
    }
}

/// One request an address space made of the platform, with the platform's answer.
#[derive(Clone, Copy, Debug, PartialEq, Eq, Structural)]
pub enum PlatformRequest {
    PrepareRoot(PhysAddr, bool),
    MapPage(PhysAddr, MappingInfo, bool),
    WritePhysical(PhysAddr, usize, bool),
}

/// One request to the physical frame allocator or to zero a frame, with the answer.
#[derive(Clone, Copy, Debug, PartialEq, Eq, Structural)]
pub enum FrameRequest {
    Alloc(Option<u64>),
    Zero(PhysAddr, bool),
    Free(u64, bool),
}

/// The machine services an address space relies on: the physical frame allocator and
/// the architecture's page-table and physical-memory access. What these calls answer is
/// the platform's own; `requests` records, in order, the preparations, mappings and
/// physical writes asked of it with their answers, and `written` the bytes of each
/// physical write.
pub trait Platform {
    /// The preparations, mappings and physical writes asked so far, with the answers.
    spec fn requests(&self) -> Seq<PlatformRequest>;

    /// The bytes handed to each physical write so far, in order.
    spec fn written(&self) -> Seq<Seq<u8>>;

    /// The frame allocations, zeroings and returns asked so far, with the answers.
    spec fn frame_requests(&self) -> Seq<FrameRequest>;

    fn alloc_frame(&mut self) -> (r: Option<u64>)
        ensures
            final(self).requests() == old(self).requests(),
            final(self).written() == old(self).written(),
            final(self).frame_requests() == old(self).frame_requests().push(FrameRequest::Alloc(r)),
    ;

    fn free_frame(&mut self, frame: u64) -> (r: bool)
        ensures
            final(self).requests() == old(self).requests(),
            final(self).written() == old(self).written(),
            final(self).frame_requests() == old(self).frame_requests().push(FrameRequest::Free(frame, r)),
    ;

    fn zero_physical_page(&mut self, frame: PhysAddr) -> (r: bool)
        ensures
            final(self).requests() == old(self).requests(),
            final(self).written() == old(self).written(),
            final(self).frame_requests() == old(self).frame_requests().push(FrameRequest::Zero(frame, r)),
    ;

    fn user_space_prepare(&mut self, root: PhysAddr) -> (r: bool)
        ensures
            final(self).requests() == old(self).requests().push(PlatformRequest::PrepareRoot(root, r)),
            final(self).written() == old(self).written(),
            final(self).frame_requests() == old(self).frame_requests(),
    ;

    fn user_space_map(
        &mut self,
        root: PhysAddr,
        mapping: MappingInfo,
        tables: &mut Vec<Option<PhysAddr>>,
    ) -> (r: bool)
        ensures
            final(self).requests() == old(self).requests().push(PlatformRequest::MapPage(root, mapping, r)),
            final(self).written() == old(self).written(),
            final(self).frame_requests() == old(self).frame_requests(),
    ;

    fn user_space_unmap(
        &mut self,
        root: PhysAddr,
        virtual_address: usize,
        tables: &mut Vec<Option<PhysAddr>>,
    ) -> (r: bool)
        ensures
            final(self).requests() == old(self).requests(),
            final(self).written() == old(self).written(),
            final(self).frame_requests() == old(self).frame_requests(),
    ;

    fn user_space_reset(&mut self, root: PhysAddr)
        ensures
            final(self).requests() == old(self).requests(),
            final(self).written() == old(self).written(),
            final(self).frame_requests() == old(self).frame_requests(),
    ;

    fn restore_kernel_address_space(&mut self)
        ensures
            final(self).requests() == old(self).requests(),
            final(self).written() == old(self).written(),
            final(self).frame_requests() == old(self).frame_requests(),
    ;

    fn write_physical(&mut self, frame: PhysAddr, offset: usize, bytes: &[u8]) -> (r: bool)
        ensures
            final(self).requests() == old(self).requests().push(PlatformRequest::WritePhysical(frame, offset, r)),
            final(self).written() == old(self).written().push(bytes@),
            final(self).frame_requests() == old(self).frame_requests(),
    ;
}

/// A zeroing the platform refused.
pub open spec fn zero_refused(a: FrameRequest) -> bool {
    match a {
        FrameRequest::Zero(_, answer) => !answer,
        _ => false,
    }
}

/// A page mapping the platform refused.
pub open spec fn map_refused(a: PlatformRequest) -> bool {
    match a {
        PlatformRequest::MapPage(_, _, answer) => !answer,
        _ => false,
    }
}

/// `s` holds frame returns only.
pub open spec fn only_returns(s: Seq<FrameRequest>) -> bool {
    forall|i: int| 0 <= i < s.len() ==> #[trigger] s[i] is Free
}

/// Some frame return in `s` was refused.
pub open spec fn some_refused(s: Seq<FrameRequest>) -> bool {
    exists|i: int| 0 <= i < s.len() && #[trigger] s[i] matches FrameRequest::Free(_, false)
}

/// One more frame return keeps a list of returns one, and is refused as a whole when
/// it or an earlier one was.
pub proof fn lemma_one_more_return(s: Seq<FrameRequest>, frame: u64, answer: bool)
    ensures
        only_returns(s) ==> only_returns(s.push(FrameRequest::Free(frame, answer))),
        some_refused(s.push(FrameRequest::Free(frame, answer))) == (some_refused(s) || !answer),
{
    let t = s.push(FrameRequest::Free(frame, answer));
    if some_refused(s) {
        let i = choose|i: int| 0 <= i < s.len() && #[trigger] s[i] matches FrameRequest::Free(_, false);
        assert(t[i] == s[i]);
    }
    if !answer {
        assert(t[s.len() as int] matches FrameRequest::Free(_, false));
    }
    if some_refused(t) {
        let i = choose|i: int| 0 <= i < t.len() && #[trigger] t[i] matches FrameRequest::Free(_, false);
        if i < s.len() {
            assert(s[i] == t[i]);
        }
    }
}

/// A user address space: up to `MAX_MAPPINGS` page mappings, a growable stack with a
/// guard page below it, and the page-table frames that back it while active.
pub struct AddressSpace {
    owner: Option<ProcessId>,
    root_frame: Option<PhysAddr>,
    mappings: Vec<Option<MappingInfo>>,
    stack_top: u64,
    stack_guard: Option<usize>,
    stack_pages: usize,
    aslr: AslrHook,
    active: bool,
    table_frames: Vec<Option<PhysAddr>>,
    pages: Ghost<Map<usize, MappingInfo>>,
}

impl AddressSpace {
    /// The mapped pages, keyed by virtual address.
    pub closed spec fn view(&self) -> Map<usize, MappingInfo> {
        self.pages@
    }

    pub closed spec fn spec_owner(&self) -> Option<ProcessId> {
        self.owner
    }

    pub closed spec fn spec_root_frame(&self) -> Option<PhysAddr> {
        self.root_frame
    }

    pub closed spec fn spec_stack_guard(&self) -> Option<usize> {
        self.stack_guard
    }

    pub closed spec fn spec_stack_pages(&self) -> usize {
        self.stack_pages
    }

    pub closed spec fn spec_active(&self) -> bool {
        self.active
    }

    pub closed spec fn spec_aslr(&self) -> AslrHook {
        self.aslr
    }

    /// Every mapping slot is taken.
    pub closed spec fn is_full(&self) -> bool {
        forall|i: int| 0 <= i < self.mappings.len() ==> (#[trigger] self.mappings@[i]) is Some
    }

    spec fn slot_holds(&self, i: int, va: usize) -> bool {
        self.mappings@[i] matches Some(m) && m.virtual_address == va
    }

    /// The internal invariant: slots and the page map agree, slots hold distinct
    /// addresses, every mapped page is a valid user page, and a destroyed space is
    /// empty and inactive.
    pub closed spec fn wf(&self) -> bool {
        &&& self.mappings.len() == MAX_MAPPINGS
        &&& forall|i: int|
            0 <= i < MAX_MAPPINGS ==> (#[trigger] self.mappings@[i] matches Some(m) ==> {
                &&& self.pages@.contains_key(m.virtual_address)
                &&& self.pages@[m.virtual_address] == m
            })
        &&& forall|va: usize|
            #[trigger] self.pages@.contains_key(va) ==> exists|i: int|
                0 <= i < MAX_MAPPINGS && #[trigger] self.mappings@[i] == Some(self.pages@[va])
        &&& forall|i: int, j: int|
            0 <= i < MAX_MAPPINGS && 0 <= j < MAX_MAPPINGS && i != j && (
            #[trigger] self.mappings@[i]) is Some && (#[trigger] self.mappings@[j]) is Some
                ==> self.mappings@[i]->0.virtual_address != self.mappings@[j]->0.virtual_address
        &&& forall|va: usize|
            #[trigger] self.pages@.contains_key(va) ==> {
                &&& valid_user_page(va as int)
                &&& self.pages@[va].virtual_address == va
                &&& flags_check(self.pages@[va].flags) is Ok
            }
        &&& self.stack_top == USER_LIMIT - PAGE_SIZE
        &&& self.stack_pages <= MAX_STACK_PAGES
        &&& self.root_frame is None ==> self.pages@ == Map::<usize, MappingInfo>::empty()
            && !self.active
    }

    /// Creates an empty, inactive address space rooted at a newly allocated frame.
    pub fn new<P: Platform>(owner: ProcessId, aslr: AslrHook, platform: &mut P) -> (r: Result<
        Self,
        Error,
    >)
        ensures
            match r {
                Ok(space) => {
                    &&& space.wf()
                    &&& space@ == Map::<usize, MappingInfo>::empty()
                    &&& space.spec_owner() == Some(owner)
                    &&& space.spec_root_frame() is Some
                    &&& space.spec_stack_guard() is None
                    &&& space.spec_stack_pages() == 0
                    &&& !space.spec_active()
                    &&& space.spec_aslr() == aslr
                },
                Err(e) => e == Error::NoFrames,
            },
            final(platform).requests() == old(platform).requests(),
            final(platform).frame_requests().len() == old(platform).frame_requests().len() + 1,
            final(platform).frame_requests().drop_last() == old(platform).frame_requests(),
            match final(platform).frame_requests().last() {
                FrameRequest::Alloc(None) => r == Err::<Self, Error>(Error::NoFrames),
                FrameRequest::Alloc(Some(frame)) => r matches Ok(space) && space.spec_root_frame() == Some(
                    PhysAddr(frame),
                ),
                _ => false,
            },
    {
        let ghost fb = platform.frame_requests();
        let answer = platform.alloc_frame();
        proof {
            assert(platform.frame_requests().drop_last() =~= fb);
        }
        let root_frame = match answer {
            Some(frame) => PhysAddr::new(frame),
            None => return Err(Error::NoFrames),
        };
        let mut mappings: Vec<Option<MappingInfo>> = Vec::new();
        let mut i: usize = 0;
        while i < MAX_MAPPINGS
            invariant
                i <= MAX_MAPPINGS,
                mappings.len() == i,
                forall|j: int| 0 <= j < i ==> #[trigger] mappings@[j] is None,
            decreases MAX_MAPPINGS - i,
        {
            mappings.push(None);
            i += 1;
        }
        let mut table_frames: Vec<Option<PhysAddr>> = Vec::new();
        let mut k: usize = 0;
        while k < MAX_TABLE_FRAMES
            invariant
                k <= MAX_TABLE_FRAMES,
                table_frames.len() == k,
            decreases MAX_TABLE_FRAMES - k,
        {
            table_frames.push(None);
            k += 1;
        }
        let space = AddressSpace {
            owner: Some(owner),
            root_frame: Some(root_frame),
            mappings,
            stack_top: USER_LIMIT - PAGE_SIZE as u64,
            stack_guard: None,
            stack_pages: 0,
            aslr,
            active: false,
            table_frames,
            pages: Ghost(Map::empty()),
        };
        assert(space.pages@ == Map::<usize, MappingInfo>::empty());
        assert forall|i: int| 0 <= i < MAX_MAPPINGS implies (#[trigger] space.mappings@[i]) is None by {}
        Ok(space)
    }

    pub fn owner(&self) -> (r: Option<ProcessId>)
        ensures
            r == self.spec_owner(),
    {
        self.owner
    }

    pub fn root_frame(&self) -> (r: Option<PhysAddr>)
        ensures
            r == self.spec_root_frame(),
    {
        self.root_frame
    }

    pub fn aslr_base(&self, hint: usize, span: usize, alignment: usize) -> (r: Option<usize>)
        ensures
            r == aslr_choice(self.spec_aslr().seed, hint, span, alignment),
    {
        self.aslr.choose_base(hint, span, alignment)
    }

    pub fn stack_guard(&self) -> (r: Option<usize>)
        ensures
            r == self.spec_stack_guard(),
    {
        self.stack_guard
    }

    pub fn is_destroyed(&self) -> (r: bool)
        ensures
            r == self.spec_root_frame() is None,
    {
        self.root_frame.is_none()
    }

    pub fn is_active(&self) -> (r: bool)
        ensures
            r == self.spec_active(),
    {
        self.active
    }

    /// The slot that maps `virtual_address`, if any.
    fn find_slot(&self, virtual_address: usize) -> (r: Option<usize>)
        requires
            self.wf(),
        ensures
            match r {
                Some(i) => i < MAX_MAPPINGS && self.slot_holds(i as int, virtual_address)
                    && self@.contains_key(virtual_address)
                    && self.mappings@[i as int] == Some(self@[virtual_address]),
                None => !self@.contains_key(virtual_address),
            },
    {
        let mut i: usize = 0;
        while i < MAX_MAPPINGS
            invariant
                self.wf(),
                i <= MAX_MAPPINGS,
                forall|j: int| 0 <= j < i ==> !self.slot_holds(j, virtual_address),
            decreases MAX_MAPPINGS - i,
        {
            if let Some(m) = self.mappings[i] {
                if m.virtual_address == virtual_address {
                    return Some(i);
                }
            }
            i += 1;
        }
        proof {
            if self.pages@.contains_key(virtual_address) {
                let k = choose|k: int|
                    0 <= k < MAX_MAPPINGS && #[trigger] self.mappings@[k] == Some(
                        self.pages@[virtual_address],
                    );
                assert(self.slot_holds(k, virtual_address));
            }
        }
        None
    }

    /// A slot with no mapping, if any.
    fn free_slot(&self) -> (r: Option<usize>)
        requires
            self.wf(),
        ensures
            match r {
                Some(i) => i < MAX_MAPPINGS && self.mappings@[i as int] is None,
                None => self.is_full(),
            },
    {
        let mut i: usize = 0;
        while i < MAX_MAPPINGS
            invariant
                self.wf(),
                i <= MAX_MAPPINGS,
                forall|j: int| 0 <= j < i ==> (#[trigger] self.mappings@[j]) is Some,
            decreases MAX_MAPPINGS - i,
        {
            if self.mappings[i].is_none() {
                return Some(i);
            }
            i += 1;
        }
        None
    }

    /// The mapping of the page at `virtual_address`, if that page is mapped.
    pub fn mapping(&self, virtual_address: usize) -> (r: Option<MappingInfo>)
        requires
            self.wf(),
        ensures
            r == (if self@.contains_key(virtual_address) {
                Some(self@[virtual_address])
            } else {
                None
            }),
            r matches Some(info) ==> info.virtual_address == virtual_address,
    {
        match self.find_slot(virtual_address) {
            Some(i) => self.mappings[i],
            None => None,
        }
    }

    /// The checks `map_page` makes before it asks for a frame, in order.
    pub open spec fn map_check(&self, va: usize, flags: PageFlags, kind: MappingKind) -> Result<
        (),
        Error,
    > {
        if self.spec_root_frame() is None {
            Err(Error::InvalidState)
        } else if flags_check(flags) is Err {
            flags_check(flags)
        } else if page_check(va as int) is Err {
            page_check(va as int)
        } else if self.spec_stack_guard() == Some(va) && kind != MappingKind::Stack {
            Err(Error::GuardPage)
        } else if self@.contains_key(va) {
            Err(Error::Overlap)
        } else if self.is_full() {
            Err(Error::MappingCapacity)
        } else {
            Ok(())
        }
    }

    /// Who owns the space and its root table either both stay, or the space has been
    /// torn down and has neither.
    pub open spec fn identity_kept_or_dropped(old: &Self, new: &Self) -> bool {
        ||| new.spec_owner() == old.spec_owner() && new.spec_root_frame() == old.spec_root_frame()
        ||| new.spec_owner() is None && new.spec_root_frame() is None
    }

    /// Owner, root, stack bookkeeping, activity and seed are the same in both.
    pub open spec fn same_layout(&self, other: &Self) -> bool {
        &&& self.spec_owner() == other.spec_owner()
        &&& self.spec_root_frame() == other.spec_root_frame()
        &&& self.spec_stack_guard() == other.spec_stack_guard()
        &&& self.spec_stack_pages() == other.spec_stack_pages()
        &&& self.spec_active() == other.spec_active()
        &&& self.spec_aslr() == other.spec_aslr()
    }

    /// What `map_page` promises: the checks fail with their error and change nothing;
    /// otherwise the page is mapped to the allocated frame, or the frame allocator or
    /// the hardware refused and nothing changed.
    pub open spec fn map_outcome(
        old: &Self,
        new: &Self,
        va: usize,
        flags: PageFlags,
        kind: MappingKind,
        r: Result<MappingInfo, Error>,
    ) -> bool {
        &&& new.same_layout(old)
        &&& match old.map_check(va, flags, kind) {
            Err(e) => r == Err::<MappingInfo, Error>(e) && new@ == old@,
            Ok(()) => match r {
                Ok(info) => {
                    &&& info.virtual_address == va
                    &&& info.flags == flags
                    &&& info.kind == kind
                    &&& new@ == old@.insert(va, info)
                },
                Err(e) => {
                    &&& e == Error::NoFrames || e == Error::HardwareUnavailable || (e
                        == Error::HardwareMapping && old.spec_active())
                    &&& new@ == old@
                },
            },
        }
    }

    /// What mapping a page at `va` asks of the platform, from frame requests `fb` and
    /// requests `rb` to `fa` and `ra`, with the answer `r`: nothing when the checks fail;
    /// otherwise a frame, where none gives `NoFrames`; its zeroing, where a refusal
    /// returns the frame and gives `HardwareUnavailable`; and, in an active space, the
    /// mapping of the page to that frame, where a refusal returns the frame and gives
    /// `HardwareMapping`. Success maps the page to the frame handed out.
    pub open spec fn map_platform_outcome(
        old: &Self,
        va: usize,
        flags: PageFlags,
        kind: MappingKind,
        fb: Seq<FrameRequest>,
        fa: Seq<FrameRequest>,
        rb: Seq<PlatformRequest>,
        ra: Seq<PlatformRequest>,
        r: Result<MappingInfo, Error>,
    ) -> bool {
        match old.map_check(va, flags, kind) {
            Err(e) => fa == fb && ra == rb && r == Err::<MappingInfo, Error>(e),
            Ok(()) => {
                let added = fa.skip(fb.len() as int);
                &&& fa.len() > fb.len()
                &&& fa.take(fb.len() as int) == fb
                &&& match added[0] {
                    FrameRequest::Alloc(None) => added.len() == 1 && ra == rb && r == Err::<MappingInfo, Error>(
                        Error::NoFrames,
                    ),
                    FrameRequest::Alloc(Some(frame)) => {
                        let mapping = MappingInfo { virtual_address: va, physical_frame: PhysAddr(frame), flags, kind };
                        &&& added.len() >= 2
                        &&& added[1] matches FrameRequest::Zero(zeroed, ok) && zeroed == PhysAddr(frame) && if !ok {
                            &&& added.len() == 3
                            &&& added[2] matches FrameRequest::Free(back, _) && back == frame
                            &&& ra == rb
                            &&& r == Err::<MappingInfo, Error>(Error::HardwareUnavailable)
                        } else if !old.spec_active() {
                            added.len() == 2 && ra == rb && r == Ok::<MappingInfo, Error>(mapping)
                        } else {
                            &&& ra.len() == rb.len() + 1
                            &&& ra.drop_last() == rb
                            &&& ra.last() matches PlatformRequest::MapPage(root, m, accepted) && Some(root)
                                == old.spec_root_frame() && m == mapping && if accepted {
                                added.len() == 2 && r == Ok::<MappingInfo, Error>(mapping)
                            } else {
                                &&& added.len() == 3
                                &&& added[2] matches FrameRequest::Free(back, _) && back == frame
                                &&& r == Err::<MappingInfo, Error>(Error::HardwareMapping)
                            }
                        }
                    },
                    _ => false,
                }
            },
        }
    }

    fn map_page<P: Platform>(
        &mut self,
        platform: &mut P,
        virtual_address: usize,
        flags: PageFlags,
        kind: MappingKind,
    ) -> (r: Result<MappingInfo, Error>)
        requires
            old(self).wf(),
        ensures
            final(self).wf(),
            Self::map_outcome(old(self), final(self), virtual_address, flags, kind, r),
            Self::map_platform_outcome(
                old(self),
                virtual_address,
                flags,
                kind,
                old(platform).frame_requests(),
                final(platform).frame_requests(),
                old(platform).requests(),
                final(platform).requests(),
                r,
            ),
    {
        let ghost fb = platform.frame_requests();
        let ghost rb = platform.requests();
        proof {
            assert(fb.take(fb.len() as int) =~= fb);
        }
        if self.root_frame.is_none() {
            return Err(Error::InvalidState);
        }
        if let Err(e) = flags.validate() {
            return Err(e);
        }
        if let Err(e) = validate_page(virtual_address) {
            return Err(e);
        }
        if self.stack_guard == Some(virtual_address) && kind != MappingKind::Stack {
            return Err(Error::GuardPage);
        }
        if self.find_slot(virtual_address).is_some() {
            return Err(Error::Overlap);
        }
        let slot = match self.free_slot() {
            Some(slot) => slot,
            None => return Err(Error::MappingCapacity),
        };
        let answer = platform.alloc_frame();
        let physical_frame = match answer {
            Some(frame) => PhysAddr::new(frame),
            None => {
                proof {
                    assert(platform.frame_requests().take(fb.len() as int) =~= fb);
                    assert(platform.frame_requests().skip(fb.len() as int) =~= seq![FrameRequest::Alloc(None)]);
                }
                return Err(Error::NoFrames);
            },
        };
        if !platform.zero_physical_page(physical_frame) {
            let _ = platform.free_frame(physical_frame.value());
            proof {
                assert(platform.frame_requests().take(fb.len() as int) =~= fb);
                assert(platform.frame_requests().skip(fb.len() as int) =~= seq![
                    FrameRequest::Alloc(answer),
                    FrameRequest::Zero(physical_frame, false),
                    FrameRequest::Free(physical_frame.0, platform.frame_requests().last()->Free_1),
                ]);
            }
            return Err(Error::HardwareUnavailable);
        }
        proof {
            assert(platform.frame_requests().take(fb.len() as int) =~= fb);
            assert(platform.frame_requests().skip(fb.len() as int) =~= seq![
                FrameRequest::Alloc(answer),
                FrameRequest::Zero(physical_frame, true),
            ]);
        }
        let mapping = MappingInfo { virtual_address, physical_frame, flags, kind };
        let ghost old_pages = self.pages@;
        self.mappings.set(slot, Some(mapping));
        self.pages = Ghost(self.pages@.insert(virtual_address, mapping));
        proof {
            assert forall|va: usize| #[trigger] self.pages@.contains_key(va) implies exists|i: int|
                0 <= i < MAX_MAPPINGS && #[trigger] self.mappings@[i] == Some(self.pages@[va]) by {
                if va == virtual_address {
                    assert(self.mappings@[slot as int] == Some(self.pages@[va]));
                } else {
                    assert(old_pages.contains_key(va));
                    let k = choose|k: int|
                        0 <= k < MAX_MAPPINGS && #[trigger] old(self).mappings@[k] == Some(
                            old_pages[va],
                        );
                    assert(self.mappings@[k] == Some(self.pages@[va]));
                }
            }
        }
        if self.active {
            let root = match self.root_frame {
                Some(root) => root,
                None => return Err(Error::InvalidState),
            };
            let ghost f2 = platform.frame_requests();
            assert(platform.requests() == rb);
            assert(old(self).spec_active());
            assert(old(self).spec_root_frame() == Some(root));
            let accepted = platform.user_space_map(root, mapping, &mut self.table_frames);
            proof {
                assert(platform.requests().drop_last() =~= rb);
                assert(platform.requests().last() == PlatformRequest::MapPage(root, mapping, accepted));
            }
            if !accepted {
                self.mappings.set(slot, None);
                self.pages = Ghost(old_pages);
                let _ = platform.free_frame(physical_frame.value());
                proof {
                    assert(self.mappings@ == old(self).mappings@);
                    assert(platform.frame_requests().take(fb.len() as int) =~= fb);
                    assert(platform.frame_requests().skip(fb.len() as int) =~= f2.skip(fb.len() as int).push(
                        FrameRequest::Free(physical_frame.0, platform.frame_requests().last()->Free_1),
                    ));
                }
                return Err(Error::HardwareMapping);
            }
            proof {
                assert(platform.frame_requests() == f2);
            }
        } else {
            proof {
                assert(platform.requests() == rb);
                assert(!old(self).spec_active());
            }
        }
        Ok(mapping)
    }

    /// Maps a fresh zeroed anonymous page at `virtual_address`.
    pub fn map_anonymous<P: Platform>(
        &mut self,
        platform: &mut P,
        virtual_address: usize,
        flags: PageFlags,
    ) -> (r: Result<MappingInfo, Error>)
        requires
            old(self).wf(),
        ensures
            final(self).wf(),
            Self::identity_kept_or_dropped(old(self), final(self)),
            Self::map_outcome(
                old(self),
                final(self),
                virtual_address,
                flags,
                MappingKind::Anonymous,
                r,
            ),
            Self::map_platform_outcome(
                old(self),
                virtual_address,
                flags,
                MappingKind::Anonymous,
                old(platform).frame_requests(),
                final(platform).frame_requests(),
                old(platform).requests(),
                final(platform).requests(),
                r,
            ),
    {
        self.map_page(platform, virtual_address, flags, MappingKind::Anonymous)
    }

    /// Removes the mapping of `virtual_address` and returns its frame.
    fn remove_mapping<P: Platform>(&mut self, platform: &mut P, virtual_address: usize) -> (r:
        Result<(), Error>)
        requires
            old(self).wf(),
        ensures
            final(self).wf(),
            final(self).same_layout(old(self)),
            !old(self)@.contains_key(virtual_address) ==> r == Err::<(), Error>(
                Error::InvalidAddress,
            ) && final(self)@ == old(self)@,
            old(self)@.contains_key(virtual_address) ==> match r {
                Ok(()) => final(self)@ == old(self)@.remove(virtual_address),
                Err(e) => (e == Error::FrameReturn || (e == Error::HardwareMapping
                    && old(self).spec_active())) && final(self)@ == old(self)@,
            },
            final(platform).requests() == old(platform).requests(),
            final(platform).frame_requests().len() >= old(platform).frame_requests().len(),
            final(platform).frame_requests().take(old(platform).frame_requests().len() as int) == old(platform).frame_requests(),
            only_returns(final(platform).frame_requests().skip(old(platform).frame_requests().len() as int)),
    {
        let ghost fb = platform.frame_requests();
        proof {
            assert(fb.take(fb.len() as int) =~= fb);
            assert(fb.skip(fb.len() as int) =~= Seq::<FrameRequest>::empty());
        }
        let slot = match self.find_slot(virtual_address) {
            Some(slot) => slot,
            None => return Err(Error::InvalidAddress),
        };
        if self.active {
            let root = match self.root_frame {
                Some(root) => root,
                None => return Err(Error::InvalidState),
            };
            if !platform.user_space_unmap(root, virtual_address, &mut self.table_frames) {
                return Err(Error::HardwareMapping);
            }
        }
        let mapping = match self.mappings[slot] {
            Some(m) => m,
            None => return Err(Error::InvalidAddress),
        };
        let ghost old_pages = self.pages@;
        self.mappings.set(slot, None);
        self.pages = Ghost(self.pages@.remove(virtual_address));
        let ghost before = platform.frame_requests();
        let answer = platform.free_frame(mapping.physical_frame.value());
        proof {
            lemma_one_more_return(before.skip(fb.len() as int), mapping.physical_frame.0, answer);
            assert(platform.frame_requests().skip(fb.len() as int) =~= before.skip(fb.len() as int).push(
                FrameRequest::Free(mapping.physical_frame.0, answer),
            ));
            assert(platform.frame_requests().take(fb.len() as int) =~= fb);
        }
        if !answer {
            self.mappings.set(slot, Some(mapping));
            self.pages = Ghost(old_pages);
            proof {
                assert(self.mappings@ =~= old(self).mappings@);
            }
            return Err(Error::FrameReturn);
        }
        proof {
            assert forall|va: usize| #[trigger] self.pages@.contains_key(va) implies exists|i: int|
                0 <= i < MAX_MAPPINGS && #[trigger] self.mappings@[i] == Some(self.pages@[va]) by {
                let k = choose|k: int|
                    0 <= k < MAX_MAPPINGS && #[trigger] old(self).mappings@[k] == Some(
                        old_pages[va],
                    );
                assert(k != slot);
                assert(self.mappings@[k] == Some(self.pages@[va]));
            }
        }
        Ok(())
    }

    /// Unmaps an anonymous page; stack pages cannot be unmapped.
    pub fn unmap_page<P: Platform>(&mut self, platform: &mut P, virtual_address: usize) -> (r:
        Result<(), Error>)
        requires
            old(self).wf(),
        ensures
            final(self).wf(),
            Self::identity_kept_or_dropped(old(self), final(self)),
            final(self).same_layout(old(self)),
            !old(self)@.contains_key(virtual_address) ==> r == Err::<(), Error>(
                Error::InvalidAddress,
            ) && final(self)@ == old(self)@,
            old(self)@.contains_key(virtual_address) && old(self)@[virtual_address].kind
                == MappingKind::Stack ==> r == Err::<(), Error>(Error::InvalidState)
                && final(self)@ == old(self)@,
            old(self)@.contains_key(virtual_address) && old(self)@[virtual_address].kind
                == MappingKind::Anonymous ==> match r {
                Ok(()) => final(self)@ == old(self)@.remove(virtual_address),
                Err(e) => (e == Error::FrameReturn || (e == Error::HardwareMapping
                    && old(self).spec_active())) && final(self)@ == old(self)@,
            },
    {
        let mapping = match self.mapping(virtual_address) {
            Some(m) => m,
            None => return Err(Error::InvalidAddress),
        };
        if mapping.kind == MappingKind::Stack {
            return Err(Error::InvalidState);
        }
        self.remove_mapping(platform, virtual_address)
    }

    /// The lowest of the initial stack pages.
    pub open spec fn stack_first_page() -> int {
        USER_LIMIT - PAGE_SIZE - INITIAL_STACK_PAGES * PAGE_SIZE
    }

    /// Maps the initial two stack pages just below the stack top and places the guard
    /// page below them. On failure the pages mapped so far are unmapped again.
    /// An error that the platform answered: `NoFrames` only after an allocation found
    /// no frame, `HardwareUnavailable` only after a zeroing was refused, and
    /// `HardwareMapping` only after a mapping was refused, among the frame requests from
    /// `fb` to `fa` and the requests from `rb` to `ra`.
    pub open spec fn refusal_behind(
        e: Error,
        fb: Seq<FrameRequest>,
        fa: Seq<FrameRequest>,
        rb: Seq<PlatformRequest>,
        ra: Seq<PlatformRequest>,
    ) -> bool {
        &&& e == Error::NoFrames ==> exists|i: int| fb.len() <= i < fa.len() && #[trigger] fa[i] == FrameRequest::Alloc(
            None,
        )
        &&& e == Error::HardwareUnavailable ==> exists|i: int| fb.len() <= i < fa.len() && zero_refused(#[trigger] fa[i])
        &&& e == Error::HardwareMapping ==> exists|i: int| rb.len() <= i < ra.len() && map_refused(#[trigger] ra[i])
    }

    pub fn map_stack<P: Platform>(&mut self, platform: &mut P) -> (r: Result<(), Error>)
        requires
            old(self).wf(),
        ensures
            final(self).wf(),
            Self::identity_kept_or_dropped(old(self), final(self)),
            final(self).spec_owner() == old(self).spec_owner(),
            final(self).spec_root_frame() == old(self).spec_root_frame(),
            final(self).spec_active() == old(self).spec_active(),
            final(self).spec_aslr() == old(self).spec_aslr(),
            old(self).spec_stack_pages() != 0 || old(self).spec_root_frame() is None ==> r
                == Err::<(), Error>(Error::InvalidState) && final(self)@ == old(self)@
                && final(self).same_layout(old(self)),
            r is Ok ==> {
                let first = Self::stack_first_page() as usize;
                let second = (Self::stack_first_page() + PAGE_SIZE) as usize;
                &&& old(self).spec_stack_pages() == 0
                &&& !old(self)@.contains_key(first)
                &&& !old(self)@.contains_key(second)
                &&& final(self)@.dom() == old(self)@.dom().insert(first).insert(second)
                &&& final(self)@[first].kind == MappingKind::Stack
                &&& final(self)@[second].kind == MappingKind::Stack
                &&& final(self)@[first].flags == PageFlags::spec_user_rw()
                &&& final(self)@[second].flags == PageFlags::spec_user_rw()
                &&& forall|va: usize|
                    va != first && va != second ==> (#[trigger] final(self)@.contains_key(va)
                        == old(self)@.contains_key(va)) && (old(self)@.contains_key(va)
                        ==> final(self)@[va] == old(self)@[va])
                &&& final(self).spec_stack_pages() == INITIAL_STACK_PAGES
                &&& final(self).spec_stack_guard() == Some(
                    (Self::stack_first_page() - PAGE_SIZE) as usize,
                )
            },
            r is Err ==> final(self).spec_stack_pages() == old(self).spec_stack_pages()
                && final(self).spec_stack_guard() == old(self).spec_stack_guard(),
            r is Err ==> {
                let first = Self::stack_first_page() as usize;
                ||| final(self)@ == old(self)@
                ||| !old(self)@.contains_key(first) && final(self)@ == old(self)@.insert(first, final(self)@[first])
                    && final(self)@[first].kind == MappingKind::Stack
            },
            old(self).spec_stack_pages() == 0 && old(self).spec_root_frame() is Some && Self::stack_first_page()
                <= usize::MAX ==> match old(self).map_check(
                Self::stack_first_page() as usize,
                PageFlags::spec_user_rw(),
                MappingKind::Stack,
            ) {
                Err(e) => r == Err::<(), Error>(e) && final(self)@ == old(self)@,
                Ok(()) => true,
            },
            r matches Err(e) ==> Self::refusal_behind(
                e,
                old(platform).frame_requests(),
                final(platform).frame_requests(),
                old(platform).requests(),
                final(platform).requests(),
            ),
    {
        let ghost fb = platform.frame_requests();
        let ghost rb = platform.requests();
        if self.stack_pages != 0 || self.root_frame.is_none() {
            return Err(Error::InvalidState);
        }
        let first64 = self.stack_top - (INITIAL_STACK_PAGES * PAGE_SIZE) as u64;
        if first64 > usize::MAX as u64 {
            return Err(Error::InvalidAddress);
        }
        let first = first64 as usize;
        let second = first + PAGE_SIZE;
        let ghost old_self = *old(self);
        let ghost before_first = *self;
        match self.map_page(platform, first, PageFlags::user_rw(), MappingKind::Stack) {
            Ok(_) => {},
            Err(error) => {
                proof {
                    Self::lemma_map_refusal(&before_first, first, PageFlags::spec_user_rw(), MappingKind::Stack, fb,
                        platform.frame_requests(), rb, platform.requests(), error);
                }
                return Err(error);
            },
        }
        let ghost mid = self.pages@;
        let ghost f1 = platform.frame_requests();
        let ghost r1 = platform.requests();
        let ghost before_second = *self;
        proof {
            assert(f1.len() >= fb.len() && f1.take(fb.len() as int) == fb);
            assert(r1.len() >= rb.len() && r1.take(rb.len() as int) =~= rb);
        }
        match self.map_page(platform, second, PageFlags::user_rw(), MappingKind::Stack) {
            Ok(_) => {},
            Err(error) => {
                let ghost f2 = platform.frame_requests();
                let ghost r2 = platform.requests();
                proof {
                    Self::lemma_map_refusal(&before_second, second, PageFlags::spec_user_rw(), MappingKind::Stack, f1, f2,
                        r1, r2, error);
                }
                let _ = self.remove_mapping(platform, first);
                proof {
                    Self::lemma_refusal_kept(error, fb, f1, f2, platform.frame_requests(), rb, r1, r2, platform.requests());
                }
                return Err(error);
            },
        }
        self.stack_pages = INITIAL_STACK_PAGES;
        self.stack_guard = Some(first - PAGE_SIZE);
        proof {
            assert(self.pages@.dom() =~= old_self.pages@.dom().insert(first).insert(second));
        }
        Ok(())
    }

    /// A refused page mapping shows the refusal behind its platform error.
    proof fn lemma_map_refusal(
        old: &Self,
        va: usize,
        flags: PageFlags,
        kind: MappingKind,
        fb: Seq<FrameRequest>,
        fa: Seq<FrameRequest>,
        rb: Seq<PlatformRequest>,
        ra: Seq<PlatformRequest>,
        e: Error,
    )
        requires
            Self::map_platform_outcome(old, va, flags, kind, fb, fa, rb, ra, Err(e)),
        ensures
            Self::refusal_behind(e, fb, fa, rb, ra),
            fa.len() >= fb.len(),
            fa.take(fb.len() as int) == fb,
            ra.len() >= rb.len(),
            ra.take(rb.len() as int) == rb,
    {
        assert(fb.take(fb.len() as int) =~= fb);
        assert(rb.take(rb.len() as int) =~= rb);
        if old.map_check(va, flags, kind) is Ok {
            let added = fa.skip(fb.len() as int);
            assert(fa[fb.len() as int] == added[0]);
            if added.len() >= 2 {
                assert(fa[fb.len() as int + 1] == added[1]);
            }
            if ra.len() == rb.len() + 1 {
                assert(ra.take(rb.len() as int) =~= ra.drop_last());
                assert(ra[rb.len() as int] == ra.last());
            }
            if e == Error::NoFrames {
                assert(added[0] == FrameRequest::Alloc(None));
            }
            if e == Error::HardwareUnavailable {
                assert(zero_refused(added[1]));
                assert(zero_refused(fa[fb.len() as int + 1]));
            }
            if e == Error::HardwareMapping {
                assert(map_refused(ra[rb.len() as int]));
            }
        } else {
            assert(ra == rb);
            assert(e != Error::NoFrames && e != Error::HardwareUnavailable && e != Error::HardwareMapping);
        }
    }

    /// A refusal seen in the middle of a run of requests stays seen at its end, when the
    /// requests only grow.
    proof fn lemma_refusal_kept(
        e: Error,
        f0: Seq<FrameRequest>,
        f1: Seq<FrameRequest>,
        f2: Seq<FrameRequest>,
        f3: Seq<FrameRequest>,
        r0: Seq<PlatformRequest>,
        r1: Seq<PlatformRequest>,
        r2: Seq<PlatformRequest>,
        r3: Seq<PlatformRequest>,
    )
        requires
            Self::refusal_behind(e, f1, f2, r1, r2),
            f1.len() >= f0.len(),
            f2.len() >= f1.len(),
            f3.len() >= f2.len(),
            f3.take(f2.len() as int) == f2,
            r1.len() >= r0.len(),
            r2.len() >= r1.len(),
            r3 == r2,
        ensures
            Self::refusal_behind(e, f0, f3, r0, r3),
    {
        if e == Error::NoFrames {
            let i = choose|i: int| f1.len() <= i < f2.len() && #[trigger] f2[i] == FrameRequest::Alloc(None);
            assert(f3[i] == f3.take(f2.len() as int)[i]);
        }
        if e == Error::HardwareUnavailable {
            let i = choose|i: int| f1.len() <= i < f2.len() && zero_refused(#[trigger] f2[i]);
            assert(f3[i] == f3.take(f2.len() as int)[i]);
        }
    }

    /// What `grow_stack` does from `old` to `new` when it answers `r` for `fault_address`.
    pub open spec fn grow_outcome(old: &Self, new: &Self, fault_address: usize, r: Result<bool, Error>) -> bool {
        &&& (new.spec_owner() == old.spec_owner())
        &&& (new.spec_root_frame() == old.spec_root_frame())
        &&& (new.spec_active() == old.spec_active())
        &&& (new.spec_aslr() == old.spec_aslr())
        &&& ((old.spec_stack_guard() is None || old.spec_stack_guard() != Some(
                    page_of(fault_address),
                ) || old.spec_stack_pages() == MAX_STACK_PAGES) ==> r == Ok::<bool, Error>(
                    false,
                ) && new@ == old@ && new.same_layout(old))
        &&& (r == Ok::<bool, Error>(true) ==> {
                    let guard = old.spec_stack_guard().unwrap();
                    &&& new@.contains_key(guard)
                    &&& new@ == old@.insert(guard, new@[guard])
                    &&& new@[guard].kind == MappingKind::Stack
                    &&& new@[guard].flags == PageFlags::spec_user_rw()
                    &&& new.spec_stack_pages() == old.spec_stack_pages() + 1
                    &&& new.spec_stack_guard() == (if guard >= PAGE_SIZE {
                        Some((guard - PAGE_SIZE) as usize)
                    } else {
                        None
                    })
                })
        &&& (r is Err ==> new@ == old@ && new.same_layout(old))
        &&& (r == Ok::<bool, Error>(false) ==> new@ == old@ && new.same_layout(old))
        &&& (old.spec_stack_guard() == Some(page_of(fault_address)) && old.spec_stack_pages()
                    != MAX_STACK_PAGES ==> match old.map_check(
                    page_of(fault_address),
                    PageFlags { user: true, readable: true, writable: true, executable: false },
                    MappingKind::Stack,
                ) {
                    Err(e) => r == Err::<bool, Error>(e),
                    Ok(()) => r == Ok::<bool, Error>(true) || r == Err::<bool, Error>(Error::NoFrames) || r == Err::<
                        bool,
                        Error,
                    >(Error::HardwareUnavailable) || (r == Err::<bool, Error>(Error::HardwareMapping)
                        && old.spec_active()),
                })
    }

    /// Grows the stack by one page when `fault_address` lies in the guard page and the
    /// stack is below its limit; the guard moves down one page.
    pub fn grow_stack<P: Platform>(&mut self, platform: &mut P, fault_address: usize) -> (r:
        Result<bool, Error>)
        requires
            old(self).wf(),
        ensures
            final(self).wf(),
            Self::identity_kept_or_dropped(old(self), final(self)),
            Self::grow_outcome(old(self), final(self), fault_address, r),
    {
        let guard = match self.stack_guard {
            Some(guard) => guard,
            None => return Ok(false),
        };
        if page_base(fault_address) != guard {
            return Ok(false);
        }
        if self.stack_pages == MAX_STACK_PAGES {
            return Ok(false);
        }
        match self.map_page(platform, guard, PageFlags::user_rw(), MappingKind::Stack) {
            Ok(_) => {},
            Err(error) => return Err(error),
        }
        self.stack_pages = self.stack_pages + 1;
        self.stack_guard = guard.checked_sub(PAGE_SIZE);
        Ok(true)
    }

    /// The answer to a write fault in the guard page once the stack growth answered
    /// `grown`.
    pub open spec fn spec_stack_fault_answer(grown: Result<bool, Error>) -> FaultResult {
        match grown {
            Ok(true) => FaultResult::Resolved,
            Ok(false) => FaultResult::UserFault(FaultReason::StackOverflow),
            Err(Error::NoFrames) => FaultResult::UserFault(FaultReason::OutOfMemory),
            Err(_) => FaultResult::UserFault(FaultReason::GuardPage),
        }
    }

    /// The answer to a write fault in the guard page once the stack growth answered
    /// `grown`: resolved when a page was added, a stack overflow at the limit, out of
    /// memory when no frame was left, and a guard page fault otherwise.
    pub fn stack_fault_answer(grown: Result<bool, Error>) -> (r: FaultResult)
        ensures
            r == Self::spec_stack_fault_answer(grown),
    {
        match grown {
            Ok(true) => FaultResult::Resolved,
            Ok(false) => FaultResult::UserFault(FaultReason::StackOverflow),
            Err(Error::NoFrames) => FaultResult::UserFault(FaultReason::OutOfMemory),
            Err(_) => FaultResult::UserFault(FaultReason::GuardPage),
        }
    }

    /// Decides a user fault: faults in the guard page grow the stack (writes only);
    /// every other user fault is reported with its reason; kernel faults are fatal.
    pub fn handle_fault<P: Platform>(&mut self, platform: &mut P, fault: FaultInfo) -> (r:
        FaultResult)
        requires
            old(self).wf(),
        ensures
            final(self).wf(),
            Self::identity_kept_or_dropped(old(self), final(self)),
            final(self).spec_owner() == old(self).spec_owner(),
            final(self).spec_root_frame() == old(self).spec_root_frame(),
            final(self).spec_active() == old(self).spec_active(),
            !fault.user ==> r == FaultResult::KernelFatal && final(self)@ == old(self)@,
            fault.user && (fault.kind != FaultKind::Translation || fault.instruction) ==> r
                == FaultResult::UserFault(FaultReason::Protection) && final(self)@ == old(self)@,
            fault.user && fault.kind == FaultKind::Translation && !fault.instruction
                && old(self).spec_stack_guard() == Some(page_of(fault.address)) ==> {
                &&& !fault.write ==> r == FaultResult::UserFault(FaultReason::Protection)
                &&& fault.write && old(self).spec_stack_pages() == MAX_STACK_PAGES ==> r
                    == FaultResult::UserFault(FaultReason::StackOverflow)
                &&& r == FaultResult::Resolved ==> final(self)@.contains_key(
                    page_of(fault.address),
                ) && final(self)@[page_of(fault.address)].kind == MappingKind::Stack
                    && final(self).spec_stack_pages() == old(self).spec_stack_pages() + 1
                &&& r != FaultResult::Resolved ==> final(self)@ == old(self)@
                &&& fault.write ==> exists|grown: Result<bool, Error>|
                    Self::grow_outcome(old(self), final(self), fault.address, grown) && r
                        == Self::spec_stack_fault_answer(grown)
                &&& r == FaultResult::Resolved ==> final(self)@[page_of(fault.address)].flags
                    == PageFlags::spec_user_rw() && final(self).spec_stack_guard() == (if page_of(
                    fault.address,
                ) >= PAGE_SIZE {
                    Some((page_of(fault.address) - PAGE_SIZE) as usize)
                } else {
                    None
                })
            },
            fault.user && fault.kind == FaultKind::Translation && !fault.instruction
                && old(self).spec_stack_guard() != Some(page_of(fault.address)) ==> {
                let page = page_of(fault.address);
                &&& final(self)@ == old(self)@
                &&& r == (if old(self)@.contains_key(page) && ((fault.write
                    && !old(self)@[page].flags.writable) || (!fault.write
                    && !old(self)@[page].flags.readable)) {
                    FaultResult::UserFault(FaultReason::Protection)
                } else {
                    FaultResult::UserFault(FaultReason::InvalidAddress)
                })
            },
    {
        if !fault.user {
            return FaultResult::KernelFatal;
        }
        if fault.kind != FaultKind::Translation || fault.instruction {
            return FaultResult::UserFault(FaultReason::Protection);
        }
        let page = page_base(fault.address);
        if self.stack_guard == Some(page) {
            if !fault.write {
                return FaultResult::UserFault(FaultReason::Protection);
            }
            let grown = self.grow_stack(platform, fault.address);
            return Self::stack_fault_answer(grown);
        }
        if let Some(mapping) = self.mapping(page) {
            if (fault.write && !mapping.flags.writable) || (!fault.write
                && !mapping.flags.readable) {
                return FaultResult::UserFault(FaultReason::Protection);
            }
        }
        FaultResult::UserFault(FaultReason::InvalidAddress)
    }

    /// Returns every page-table frame to the allocator; false when one was refused.
    fn release_table_frames<P: Platform>(&mut self, platform: &mut P) -> (r: bool)
        requires
            old(self).wf(),
        ensures
            final(self).wf(),
            final(self)@ == old(self)@,
            final(self).same_layout(old(self)),
            forall|i: int|
                0 <= i < final(self).table_frames.len() ==> (
                #[trigger] final(self).table_frames@[i]) is None,
            final(platform).requests() == old(platform).requests(),
            final(platform).written() == old(platform).written(),
            final(platform).frame_requests().len() >= old(platform).frame_requests().len(),
            final(platform).frame_requests().take(old(platform).frame_requests().len() as int) == old(platform).frame_requests(),
            only_returns(final(platform).frame_requests().skip(old(platform).frame_requests().len() as int)),
            r == !some_refused(final(platform).frame_requests().skip(old(platform).frame_requests().len() as int)),
    {
        let ghost fb = platform.frame_requests();
        let mut released = true;
        let mut i: usize = 0;
        let ghost start = *old(self);
        proof {
            assert(fb.take(fb.len() as int) =~= fb);
            assert(fb.skip(fb.len() as int) =~= Seq::<FrameRequest>::empty());
        }
        while i < self.table_frames.len()
            invariant
                platform.requests() == old(platform).requests(),
                platform.written() == old(platform).written(),
                fb == old(platform).frame_requests(),
                platform.frame_requests().len() >= fb.len(),
                platform.frame_requests().take(fb.len() as int) == fb,
                only_returns(platform.frame_requests().skip(fb.len() as int)),
                released == !some_refused(platform.frame_requests().skip(fb.len() as int)),
                self.wf(),
                self@ == start@,
                self.same_layout(&start),
                i <= self.table_frames.len(),
                forall|j: int| 0 <= j < i ==> (#[trigger] self.table_frames@[j]) is None,
            decreases self.table_frames.len() - i,
        {
            if let Some(frame) = self.table_frames[i] {
                self.table_frames.set(i, None);
                let ghost before = platform.frame_requests();
                let answer = platform.free_frame(frame.value());
                proof {
                    lemma_one_more_return(before.skip(fb.len() as int), frame.0, answer);
                    assert(platform.frame_requests().skip(fb.len() as int) =~= before.skip(fb.len() as int).push(
                        FrameRequest::Free(frame.0, answer),
                    ));
                    assert(platform.frame_requests().take(fb.len() as int) =~= fb);
                }
                if !answer {
                    released = false;
                }
            }
            i += 1;
        }
        released
    }

    /// Tears the space down: leaves the hardware tables if active, returns every
    /// mapped frame, the table frames and the root frame, and forgets the owner.
    pub fn destroy<P: Platform>(&mut self, platform: &mut P) -> (r: Result<(), Error>)
        requires
            old(self).wf(),
        ensures
            final(self).wf(),
            Self::identity_kept_or_dropped(old(self), final(self)),
            old(self).spec_root_frame() is None ==> r == Err::<(), Error>(Error::InvalidState)
                && final(self)@ == old(self)@ && final(self).same_layout(old(self)),
            old(self).spec_root_frame() is Some ==> {
                &&& final(self)@ == Map::<usize, MappingInfo>::empty()
                &&& final(self).spec_root_frame() is None
                &&& final(self).spec_owner() is None
                &&& !final(self).spec_active()
                &&& final(self).spec_stack_guard() is None
                &&& final(self).spec_stack_pages() == 0
                &&& r is Err ==> r == Err::<(), Error>(Error::FrameReturn)
            },
            old(self).spec_root_frame() is None ==> final(platform).frame_requests() == old(platform).frame_requests(),
            old(self).spec_root_frame() matches Some(root) ==> {
                let added = final(platform).frame_requests().skip(old(platform).frame_requests().len() as int);
                &&& final(platform).frame_requests().len() > old(platform).frame_requests().len()
                &&& final(platform).frame_requests().take(old(platform).frame_requests().len() as int) == old(platform).frame_requests()
                &&& only_returns(added)
                &&& added.last() matches FrameRequest::Free(frame, _) && frame == root.0
                &&& (r is Err <==> some_refused(added))
            },
    {
        let ghost fb = platform.frame_requests();
        let root = match self.root_frame {
            Some(root) => root,
            None => return Err(Error::InvalidState),
        };
        proof {
            assert(fb.take(fb.len() as int) =~= fb);
            assert(fb.skip(fb.len() as int) =~= Seq::<FrameRequest>::empty());
        }
        if self.active {
            platform.user_space_reset(root);
            platform.restore_kernel_address_space();
            self.active = false;
        }
        let mut error: Option<Error> = None;
        let mut i: usize = 0;
        while i < MAX_MAPPINGS
            invariant
                self.mappings.len() == MAX_MAPPINGS,
                self.stack_top == USER_LIMIT - PAGE_SIZE,
                !self.active,
                i <= MAX_MAPPINGS,
                error is None || error == Some(Error::FrameReturn),
                fb == old(platform).frame_requests(),
                platform.frame_requests().len() >= fb.len(),
                platform.frame_requests().take(fb.len() as int) == fb,
                only_returns(platform.frame_requests().skip(fb.len() as int)),
                error is Some == some_refused(platform.frame_requests().skip(fb.len() as int)),
            decreases MAX_MAPPINGS - i,
        {
            if let Some(mapping) = self.mappings[i] {
                let ghost before = platform.frame_requests();
                let answer = platform.free_frame(mapping.physical_frame.value());
                proof {
                    lemma_one_more_return(before.skip(fb.len() as int), mapping.physical_frame.0, answer);
                    assert(platform.frame_requests().skip(fb.len() as int) =~= before.skip(fb.len() as int).push(
                        FrameRequest::Free(mapping.physical_frame.0, answer),
                    ));
                    assert(platform.frame_requests().take(fb.len() as int) =~= fb);
                }
                if !answer && error.is_none() {
                    error = Some(Error::FrameReturn);
                }
            }
            i += 1;
        }
        let mut k: usize = 0;
        while k < MAX_MAPPINGS
            invariant
                self.mappings.len() == MAX_MAPPINGS,
                self.stack_top == USER_LIMIT - PAGE_SIZE,
                !self.active,
                k <= MAX_MAPPINGS,
                forall|j: int| 0 <= j < k ==> (#[trigger] self.mappings@[j]) is None,
            decreases MAX_MAPPINGS - k,
        {
            self.mappings.set(k, None);
            k += 1;
        }
        self.pages = Ghost(Map::empty());
        self.owner = None;
        self.stack_guard = None;
        self.stack_pages = 0;
        self.root_frame = None;
        assert(self.wf());
        let ghost mid = platform.frame_requests();
        let released = self.release_table_frames(platform);
        proof {
            let a = mid.skip(fb.len() as int);
            let b = platform.frame_requests().skip(mid.len() as int);
            assert(platform.frame_requests() =~= mid + b);
            assert(platform.frame_requests().skip(fb.len() as int) =~= a + b);
            assert(platform.frame_requests().take(fb.len() as int) =~= fb);
            assert(only_returns(a + b));
            if some_refused(a) {
                let k = choose|k: int| 0 <= k < a.len() && #[trigger] a[k] matches FrameRequest::Free(_, false);
                assert((a + b)[k] == a[k]);
            }
            if some_refused(b) {
                let k = choose|k: int| 0 <= k < b.len() && #[trigger] b[k] matches FrameRequest::Free(_, false);
                assert((a + b)[a.len() + k] == b[k]);
            }
            if some_refused(a + b) {
                let k = choose|k: int| 0 <= k < (a + b).len() && #[trigger] (a + b)[k] matches FrameRequest::Free(_, false);
                if k < a.len() {
                    assert(a[k] == (a + b)[k]);
                } else {
                    assert(b[k - a.len()] == (a + b)[k]);
                }
            }
        }
        if !released && error.is_none() {
            error = Some(Error::FrameReturn);
        }
        let ghost before_root = platform.frame_requests();
        let answer = platform.free_frame(root.value());
        proof {
            lemma_one_more_return(before_root.skip(fb.len() as int), root.0, answer);
            assert(platform.frame_requests().skip(fb.len() as int) =~= before_root.skip(fb.len() as int).push(
                FrameRequest::Free(root.0, answer),
            ));
            assert(platform.frame_requests().take(fb.len() as int) =~= fb);
        }
        if !answer && error.is_none() {
            error = Some(Error::FrameReturn);
        }
        match error {
            Some(e) => Err(e),
            None => Ok(()),
        }
    }

    /// Installs every mapping into the hardware tables and marks the space active: the
    /// platform prepares the root table (`HardwareUnavailable` when it refuses), then
    /// each mapping of `mapping_list`, in order, is handed to the platform's
    /// `user_space_map` once; a refusal resets the tables and gives `HardwareMapping`.
    pub fn activate<P: Platform>(&mut self, platform: &mut P) -> (r: Result<(), Error>)
        requires
            old(self).wf(),
        ensures
            final(self).wf(),
            Self::identity_kept_or_dropped(old(self), final(self)),
            final(self)@ == old(self)@,
            final(self).spec_owner() == old(self).spec_owner(),
            final(self).spec_root_frame() == old(self).spec_root_frame(),
            final(self).spec_stack_guard() == old(self).spec_stack_guard(),
            final(self).spec_stack_pages() == old(self).spec_stack_pages(),
            old(self).spec_root_frame() is None || old(self).spec_active() ==> r == Err::<
                (),
                Error,
            >(Error::InvalidState) && final(self).spec_active() == old(self).spec_active(),
            old(self).spec_root_frame() is Some && !old(self).spec_active() ==> (r is Ok
                <==> final(self).spec_active()) && (r is Err ==> r == Err::<(), Error>(
                Error::HardwareUnavailable,
            ) || r == Err::<(), Error>(Error::HardwareMapping)),
            old(self)@ == Map::<usize, MappingInfo>::empty() ==> r != Err::<(), Error>(Error::HardwareMapping),
            old(self).spec_root_frame() is None || old(self).spec_active() ==> final(platform).requests()
                == old(platform).requests(),
            final(platform).written() == old(platform).written(),
            match old(self).spec_root_frame() {
                Some(root) => !old(self).spec_active() ==> exists|list: Seq<MappingInfo>|
                    Self::is_listing(old(self)@, list) && Self::activation_requests(
                        root,
                        list,
                        old(platform).requests(),
                        final(platform).requests(),
                        r,
                    ),
                None => true,
            },
    {
        let root = match self.root_frame {
            Some(root) => root,
            None => return Err(Error::InvalidState),
        };
        if self.active {
            return Err(Error::InvalidState);
        }
        let list = self.mapping_list();
        let ghost req0 = platform.requests();
        if !platform.user_space_prepare(root) {
            proof {
                assert(Self::activation_requests(root, list@, req0, platform.requests(), Err(Error::HardwareUnavailable)));
            }
            return Err(Error::HardwareUnavailable);
        }
        proof {
            if list@.len() > 0 {
                assert(self@.contains_key(list@[0].virtual_address));
            }
            assert(platform.requests() =~= req0.push(PlatformRequest::PrepareRoot(root, true))
                + Self::map_requests(root, list@, 0, false));
        }
        let mut i: usize = 0;
        let ghost start = *old(self);
        while i < list.len()
            invariant
                self.wf(),
                self@ == start@,
                self.same_layout(&start),
                !self.active,
                self.root_frame == Some(root),
                start == *old(self),
                i <= list@.len(),
                list@.len() > 0 ==> start@ != Map::<usize, MappingInfo>::empty(),
                Self::is_listing(start@, list@),
                req0 == old(platform).requests(),
                platform.written() == old(platform).written(),
                platform.requests() == req0.push(PlatformRequest::PrepareRoot(root, true))
                    + Self::map_requests(root, list@, i as int, false),
            decreases list@.len() - i,
        {
            if !platform.user_space_map(root, list[i], &mut self.table_frames) {
                proof {
                    assert(platform.requests() =~= req0.push(PlatformRequest::PrepareRoot(root, true))
                        + Self::map_requests(root, list@, i + 1, true));
                }
                platform.user_space_reset(root);
                let _ = self.release_table_frames(platform);
                proof {
                    assert(Self::activation_requests(root, list@, req0, platform.requests(), Err(Error::HardwareMapping)));
                }
                return Err(Error::HardwareMapping);
            }
            proof {
                assert(platform.requests() =~= req0.push(PlatformRequest::PrepareRoot(root, true))
                    + Self::map_requests(root, list@, i + 1, false));
            }
            i += 1;
        }
        self.active = true;
        Ok(())
    }

    /// Every page touched by `len` bytes starting at `virtual_address` is mapped.
    pub open spec fn covers(&self, virtual_address: int, len: int) -> bool {
        forall|k: int|
            0 <= k < len ==> #[trigger] self@.contains_key(page_of((virtual_address + k) as usize))
    }

    /// What a copy of `len` bytes to `va` gives: `InvalidState` on a destroyed space;
    /// otherwise success only when every byte lands in a mapped page below the top of the
    /// address range, `InvalidAddress` only when one does not, and `HardwareUnavailable`
    /// when the platform refuses a write. Nothing to copy always succeeds.
    pub open spec fn load_outcome(&self, va: int, len: int, r: Result<(), Error>) -> bool {
        let complete = va + len <= usize::MAX && self.covers(va, len);
        if self.spec_root_frame() is None {
            r == Err::<(), Error>(Error::InvalidState)
        } else {
            &&& r is Ok ==> complete
            &&& r == Err::<(), Error>(Error::InvalidAddress) ==> !complete
            &&& r is Err ==> r == Err::<(), Error>(Error::InvalidAddress) || r == Err::<(), Error>(
                Error::HardwareUnavailable,
            )
            &&& len == 0 ==> r == Ok::<(), Error>(())
        }
    }

    /// The pieces of a copy of `len` bytes to `va`, page by page, from byte `start` on:
    /// each goes to its page's frame at the address's offset in the page, up to the end
    /// of the page or of the data. The pieces stop at the first unmapped page, or once
    /// the next piece would start beyond the address range.
    pub open spec fn load_chunks(view: Map<usize, MappingInfo>, va: int, start: int, len: int) -> Seq<
        LoadChunk,
    >
        decreases len - start,
    {
        if start >= len || va + start > usize::MAX || va + start < 0 {
            Seq::empty()
        } else {
            let cursor = (va + start) as usize;
            let page = page_of(cursor);
            if !view.contains_key(page) {
                Seq::empty()
            } else {
                let offset = cursor - page;
                let count = if PAGE_SIZE - offset < len - start {
                    PAGE_SIZE - offset
                } else {
                    len - start
                };
                if count <= 0 {
                    Seq::empty()
                } else {
                    seq![
                        LoadChunk {
                            frame: view[page].physical_frame,
                            offset: offset as usize,
                            start: start as usize,
                            count: count as usize,
                        },
                    ] + Self::load_chunks(view, va, start + count, len)
                }
            }
        }
    }

    /// Where byte address `a` lands in physical memory: its page's frame, at its offset
    /// within the page.
    pub open spec fn byte_target(view: Map<usize, MappingInfo>, a: usize) -> (PhysAddr, int) {
        (view[page_of(a)].physical_frame, a - page_of(a))
    }

    /// Every byte a piece of a copy carries lands where its own address says: byte `j` of
    /// piece `i` (data byte `start + j`, address `va + start + j`) goes to that address's
    /// page frame at its offset in the page. So a copy of some bytes leaves the same
    /// memory however it is split into copies.
    pub proof fn law_load_places_bytes(view: Map<usize, MappingInfo>, va: int, start: int, len: int, i: int, j: int)
        requires
            0 <= va,
            0 <= start,
            0 <= i < Self::load_chunks(view, va, start, len).len(),
            0 <= j < Self::load_chunks(view, va, start, len)[i].count,
        ensures
            ({
                let c = Self::load_chunks(view, va, start, len)[i];
                let a = (va + c.start + j) as usize;
                &&& va + c.start + j <= usize::MAX
                &&& view.contains_key(page_of(a))
                &&& Self::byte_target(view, a) == (c.frame, c.offset + j)
            }),
        decreases len - start,
    {
        let cursor = (va + start) as usize;
        let page = page_of(cursor);
        let offset = cursor - page;
        let count = if PAGE_SIZE - offset < len - start {
            PAGE_SIZE - offset
        } else {
            len - start
        };
        if i == 0 {
            let n = j as usize;
            let a = (va + start + j) as usize;
            assert(page <= cursor && cursor - page < 4096 && (page | 4095usize) == page + 4095) by (bit_vector)
                requires
                    page == cursor & !(4095usize),
            ;
            assert(Self::load_chunks(view, va, start, len)[0].start == start);
            assert(Self::load_chunks(view, va, start, len)[0].count == count);
            assert(va + start + j <= usize::MAX);
            assert(a == cursor + n);
            assert(page_of(a) == page) by (bit_vector)
                requires
                    a == cursor + n,
                    page == cursor & !(4095usize),
                    n < 4096 - (cursor - page),
                    cursor - page < 4096,
                    page <= cursor;
        } else {
            assert(Self::load_chunks(view, va, start, len)[i] == Self::load_chunks(view, va, start + count, len)[i - 1]);
            Self::law_load_places_bytes(view, va, start + count, len, i - 1, j);
        }
    }

    /// `list` holds every mapping of `view` exactly once.
    pub open spec fn is_listing(view: Map<usize, MappingInfo>, list: Seq<MappingInfo>) -> bool {
        &&& forall|i: int| 0 <= i < list.len() ==> view.contains_key(#[trigger] list[i].virtual_address)
            && view[list[i].virtual_address] == list[i]
        &&& forall|va: usize| #[trigger] view.contains_key(va) ==> exists|i: int| 0 <= i < list.len()
            && #[trigger] list[i] == view[va]
        &&& forall|i: int, j: int| 0 <= i < j < list.len() ==> #[trigger] list[i].virtual_address
            != #[trigger] list[j].virtual_address
    }

    /// The requests of `k` mappings, the first `k` of `list` in order, into the tables of
    /// `root`: each accepted but the last, which was refused when `refused`.
    pub open spec fn map_requests(root: PhysAddr, list: Seq<MappingInfo>, k: int, refused: bool) -> Seq<
        PlatformRequest,
    > {
        Seq::new(k as nat, |i: int| PlatformRequest::MapPage(root, list[i], !(refused && i == k - 1)))
    }

    /// What an activation of the tables at `root` with the mappings `list` asks of the
    /// platform, from `before` to `after`: the root is prepared first, and a refusal
    /// there gives `HardwareUnavailable` and nothing more; otherwise mappings of `list`
    /// follow in order, all of them on success, up to the refused one on
    /// `HardwareMapping`.
    pub open spec fn activation_requests(
        root: PhysAddr,
        list: Seq<MappingInfo>,
        before: Seq<PlatformRequest>,
        after: Seq<PlatformRequest>,
        r: Result<(), Error>,
    ) -> bool {
        let k = after.len() - before.len() - 1;
        if r == Err::<(), Error>(Error::HardwareUnavailable) {
            after == before.push(PlatformRequest::PrepareRoot(root, false))
        } else {
            &&& 0 <= k <= list.len()
            &&& after == before.push(PlatformRequest::PrepareRoot(root, true)) + Self::map_requests(
                root,
                list,
                k,
                r == Err::<(), Error>(Error::HardwareMapping),
            )
            &&& r == Err::<(), Error>(Error::HardwareMapping) ==> k >= 1
            &&& r is Ok ==> k == list.len()
        }
    }

    /// The requests of `k` physical writes, one per piece of `plan` in order: each
    /// accepted but the last, which was refused when `refused`.
    pub open spec fn write_requests(plan: Seq<LoadChunk>, k: int, refused: bool) -> Seq<PlatformRequest> {
        Seq::new(
            k as nat,
            |i: int| PlatformRequest::WritePhysical(plan[i].frame, plan[i].offset, !(refused && i == k - 1)),
        )
    }

    /// The bytes the first `k` pieces of `plan` carry: piece `i` carries
    /// `data[start..start + count]`.
    pub open spec fn written_pieces(plan: Seq<LoadChunk>, data: Seq<u8>, k: int) -> Seq<Seq<u8>> {
        Seq::new(k as nat, |i: int| data.subrange(plan[i].start as int, plan[i].start + plan[i].count))
    }

    /// A copy of `data` by the pieces of `plan` took the platform from the requests `req0`
    /// and written bytes `w0` to `req1` and `w1`: the first pieces of `plan`, in order,
    /// each went out as one physical write with its bytes, all accepted but the last,
    /// which was refused when `refused`.
    pub open spec fn copy_issued(
        plan: Seq<LoadChunk>,
        data: Seq<u8>,
        req0: Seq<PlatformRequest>,
        req1: Seq<PlatformRequest>,
        w0: Seq<Seq<u8>>,
        w1: Seq<Seq<u8>>,
        refused: bool,
    ) -> bool {
        let k = req1.len() - req0.len();
        &&& 0 <= k <= plan.len()
        &&& req1 == req0 + Self::write_requests(plan, k, refused)
        &&& w1 == w0 + Self::written_pieces(plan, data, k)
        &&& refused ==> k >= 1
    }

    /// Every piece of a copy from byte `start` on lies within the bytes `start..len`.
    #[verifier::rlimit(40)]
    pub proof fn lemma_chunks_within(view: Map<usize, MappingInfo>, va: int, start: int, len: int)
        requires
            0 <= va,
            0 <= start,
            len <= usize::MAX,
        ensures
            forall|i: int| 0 <= i < Self::load_chunks(view, va, start, len).len() ==> start
                <= #[trigger] Self::load_chunks(view, va, start, len)[i].start
                && Self::load_chunks(view, va, start, len)[i].start + Self::load_chunks(view, va, start, len)[i].count
                <= len && Self::load_chunks(view, va, start, len)[i].count > 0
                && va + Self::load_chunks(view, va, start, len)[i].start <= usize::MAX,
        decreases len - start,
    {
        if start >= len || va + start > usize::MAX || va + start < 0 {
        } else {
            let cursor = (va + start) as usize;
            let page = page_of(cursor);
            if view.contains_key(page) {
                let offset = cursor - page;
                let count = if PAGE_SIZE - offset < len - start {
                    PAGE_SIZE - offset
                } else {
                    len - start
                };
                if count > 0 {
                    Self::lemma_chunks_within(view, va, start + count, len);
                    assert(Self::load_chunks(view, va, start, len)[0].start == start);
                    assert(Self::load_chunks(view, va, start, len)[0].count == count);
                    assert forall|i: int| 0 <= i < Self::load_chunks(view, va, start, len).len() implies start
                        <= #[trigger] Self::load_chunks(view, va, start, len)[i].start
                        && Self::load_chunks(view, va, start, len)[i].start + Self::load_chunks(view, va, start, len)[i].count
                        <= len && Self::load_chunks(view, va, start, len)[i].count > 0
                        && va + Self::load_chunks(view, va, start, len)[i].start <= usize::MAX by {
                        if i > 0 {
                            assert(Self::load_chunks(view, va, start, len)[i] == Self::load_chunks(view, va, start + count, len)[i - 1]);
                        }
                    }
                }
            }
        }
    }

    /// The pieces `load` writes for `len` bytes at `virtual_address`, in order, and
    /// whether they cover all of it (every page mapped, and the range inside the address
    /// space).
    pub fn load_plan(&self, virtual_address: usize, len: usize) -> (r: (Vec<LoadChunk>, bool))
        requires
            self.wf(),
        ensures
            r.0@ == Self::load_chunks(self@, virtual_address as int, 0, len as int),
            r.1 == (virtual_address + len <= usize::MAX && self.covers(virtual_address as int, len as int)),
            forall|i: int| 0 <= i < r.0@.len() ==> #[trigger] r.0@[i].start + r.0@[i].count <= len,
    {
        let ghost view = self@;
        let ghost va = virtual_address as int;
        let mut out: Vec<LoadChunk> = Vec::new();
        let mut cursor = virtual_address;
        let mut offset: usize = 0;
        while offset < len
            invariant
                self.wf(),
                view == self@,
                va == virtual_address,
                offset <= len,
                cursor == virtual_address + offset,
                self.covers(virtual_address as int, offset as int),
                Self::load_chunks(view, va, 0, len as int) == out@ + Self::load_chunks(view, va, offset as int, len as int),
                forall|i: int| 0 <= i < out@.len() ==> #[trigger] out@[i].start + out@[i].count <= len,
            decreases len - offset,
        {
            let page = page_base(cursor);
            let mapping = match self.mapping(page) {
                Some(m) => m,
                None => {
                    proof {
                        assert(Self::load_chunks(view, va, offset as int, len as int) =~= Seq::<LoadChunk>::empty());
                        assert(out@ + Seq::<LoadChunk>::empty() =~= out@);
                        assert(!self@.contains_key(page_of((virtual_address + offset) as usize)));
                    }
                    return (out, false);
                },
            };
            let page_offset = cursor - page;
            let room = PAGE_SIZE - page_offset;
            let rest = len - offset;
            let count = if room < rest { room } else { rest };
            let ghost old_out = out@;
            out.push(LoadChunk { frame: mapping.physical_frame, offset: page_offset, start: offset, count });
            proof {
                assert(Self::load_chunks(view, va, offset as int, len as int) == seq![
                    LoadChunk { frame: mapping.physical_frame, offset: page_offset, start: offset, count },
                ] + Self::load_chunks(view, va, offset + count, len as int));
                assert(old_out + (seq![
                    LoadChunk { frame: mapping.physical_frame, offset: page_offset, start: offset, count },
                ] + Self::load_chunks(view, va, offset + count, len as int)) =~= out@ + Self::load_chunks(
                    view,
                    va,
                    offset + count,
                    len as int,
                ));
                assert forall|k: int| 0 <= k < offset + count implies #[trigger] self@.contains_key(
                    page_of((virtual_address + k) as usize),
                ) by {
                    if k >= offset {
                        let a = (virtual_address + k) as usize;
                        let c = cursor;
                        let p = page;
                        let n = (k - offset) as usize;
                        assert(a == c + n);
                        assert(page_of(a) == p) by (bit_vector)
                            requires
                                a == c + n,
                                p == c & !(4095usize),
                                n < 4096 - (c - p),
                                c - p < 4096,
                                p <= c;
                    }
                }
            }
            cursor = match cursor.checked_add(count) {
                Some(c) => c,
                None => {
                    proof {
                        if offset + count < len {
                            assert(Self::load_chunks(view, va, offset + count, len as int) =~= Seq::<LoadChunk>::empty());
                        } else {
                            assert(Self::load_chunks(view, va, offset + count, len as int) =~= Seq::<LoadChunk>::empty());
                        }
                        assert(out@ + Seq::<LoadChunk>::empty() =~= out@);
                    }
                    return (out, false);
                },
            };
            offset = offset + count;
        }
        proof {
            assert(Self::load_chunks(view, va, offset as int, len as int) =~= Seq::<LoadChunk>::empty());
            assert(out@ + Seq::<LoadChunk>::empty() =~= out@);
        }
        (out, true)
    }

    /// Copies `bytes` into the mapped pages starting at `virtual_address`: each piece of
    /// `load_plan` in turn goes to the platform as one physical write of
    /// `bytes[start..start + count]` to `offset` in `frame`; a refused write stops the
    /// copy, and when the pieces do not cover all the bytes the copy stops after them.
    pub fn load<P: Platform>(&self, platform: &mut P, virtual_address: usize, bytes: &[u8]) -> (r:
        Result<(), Error>)
        requires
            self.wf(),
        ensures
            self.load_outcome(virtual_address as int, bytes@.len() as int, r),
            self.spec_root_frame() is None ==> final(platform).requests() == old(platform).requests()
                && final(platform).written() == old(platform).written(),
            self.spec_root_frame() is Some ==> Self::copy_issued(
                Self::load_chunks(self@, virtual_address as int, 0, bytes@.len() as int),
                bytes@,
                old(platform).requests(),
                final(platform).requests(),
                old(platform).written(),
                final(platform).written(),
                r == Err::<(), Error>(Error::HardwareUnavailable),
            ),
            self.spec_root_frame() is Some && r != Err::<(), Error>(Error::HardwareUnavailable)
                ==> final(platform).requests().len() == old(platform).requests().len() + Self::load_chunks(
                self@,
                virtual_address as int,
                0,
                bytes@.len() as int,
            ).len(),
    {
        if self.root_frame.is_none() {
            return Err(Error::InvalidState);
        }
        let (chunks, complete) = self.load_plan(virtual_address, bytes.len());
        proof {
            if bytes@.len() == 0 {
                assert(Self::load_chunks(self@, virtual_address as int, 0, 0) =~= Seq::<LoadChunk>::empty());
            }
        }
        let ghost req0 = platform.requests();
        let ghost w0 = platform.written();
        proof {
            assert(req0 + Self::write_requests(chunks@, 0, false) =~= req0);
            assert(w0 + Self::written_pieces(chunks@, bytes@, 0) =~= w0);
        }
        let mut i: usize = 0;
        while i < chunks.len()
            invariant
                i <= chunks@.len(),
                bytes@.len() == 0 ==> chunks@.len() == 0,
                self.spec_root_frame() is Some,
                bytes@.len() <= usize::MAX,
                forall|j: int| 0 <= j < chunks@.len() ==> #[trigger] chunks@[j].start + chunks@[j].count <= bytes@.len(),
                req0 == old(platform).requests(),
                w0 == old(platform).written(),
                chunks@ == Self::load_chunks(self@, virtual_address as int, 0, bytes@.len() as int),
                platform.requests() == req0 + Self::write_requests(chunks@, i as int, false),
                platform.written() == w0 + Self::written_pieces(chunks@, bytes@, i as int),
            decreases chunks@.len() - i,
        {
            let chunk = chunks[i];
            assert(chunks@[i as int].start + chunks@[i as int].count <= bytes@.len());
            assert(chunk == chunks@[i as int]);
            let piece = &bytes[chunk.start..chunk.start + chunk.count];
            let ghost ra = platform.requests();
            let ghost wa = platform.written();
            let ok = platform.write_physical(chunk.frame, chunk.offset, piece);
            proof {
                assert(platform.written() =~= w0 + Self::written_pieces(chunks@, bytes@, i + 1)) by {
                    assert(wa + seq![piece@] =~= wa.push(piece@));
                }
            }
            if !ok {
                proof {
                    assert(platform.requests() =~= req0 + Self::write_requests(chunks@, i + 1, true));
                    assert(platform.requests().len() - req0.len() == i + 1);
                }
                return Err(Error::HardwareUnavailable);
            }
            proof {
                assert(platform.requests() =~= req0 + Self::write_requests(chunks@, i + 1, false));
            }
            i += 1;
        }
        if !complete {
            return Err(Error::InvalidAddress);
        }
        Ok(())
    }

    /// A destroyed space holds no mappings and is not active.
    pub proof fn lemma_destroyed_is_empty(&self)
        requires
            self.wf(),
            self.spec_root_frame() is None,
        ensures
            self@ == Map::<usize, MappingInfo>::empty(),
            !self.spec_active(),
    {
    }

    /// Each mapping is keyed by its own page address, which is a valid user page, and
    /// its flags pass the flag check.
    pub proof fn lemma_mapping_keyed_by_address(&self, va: usize)
        requires
            self.wf(),
            self@.contains_key(va),
        ensures
            self@[va].virtual_address == va,
            valid_user_page(va as int),
            flags_check(self@[va].flags) is Ok,
    {
    }

    /// The mappings, each exactly once, in slot order: the list `activate` hands to the
    /// page-table code.
    pub fn mapping_list(&self) -> (r: Vec<MappingInfo>)
        requires
            self.wf(),
        ensures
            r@.len() <= MAX_MAPPINGS,
            Self::is_listing(self@, r@),
    {
        let mut out: Vec<MappingInfo> = Vec::new();
        let mut i: usize = 0;
        let ghost mut slots: Seq<int> = Seq::empty();
        while i < MAX_MAPPINGS
            invariant
                self.wf(),
                i <= MAX_MAPPINGS,
                out@.len() <= i,
                slots.len() == out@.len(),
                forall|k: int| 0 <= k < out@.len() ==> 0 <= #[trigger] slots[k] < i && self.mappings@[slots[k]]
                    == Some(out@[k]),
                forall|k: int, l: int| 0 <= k < l < out@.len() ==> #[trigger] slots[k] < #[trigger] slots[l],
                forall|m: int| 0 <= m < i && #[trigger] self.mappings@[m] is Some ==> exists|k: int| 0 <= k
                    < out@.len() && slots[k] == m,
            decreases MAX_MAPPINGS - i,
        {
            let ghost before = slots;
            match self.mappings[i] {
                Some(m) => {
                    out.push(m);
                    proof {
                        slots = slots.push(i as int);
                    }
                },
                None => {},
            }
            proof {
                assert forall|m: int| 0 <= m < i + 1 && #[trigger] self.mappings@[m] is Some implies exists|k: int|
                    0 <= k < out@.len() && slots[k] == m by {
                    if m == i {
                        assert(slots[out@.len() - 1] == m);
                    } else {
                        let k = choose|k: int| 0 <= k < before.len() && before[k] == m;
                        assert(slots[k] == m);
                    }
                }
            }
            i += 1;
        }
        proof {
            assert forall|k: int| 0 <= k < out@.len() implies self@.contains_key(#[trigger] out@[k].virtual_address)
                && self@[out@[k].virtual_address] == out@[k] by {
                assert(self.mappings@[slots[k]] == Some(out@[k]));
            }
            assert forall|va: usize| #[trigger] self@.contains_key(va) implies exists|k: int| 0 <= k < out@.len()
                && #[trigger] out@[k] == self@[va] by {
                let m = choose|m: int| 0 <= m < MAX_MAPPINGS && #[trigger] self.mappings@[m] == Some(self@[va]);
                let k = choose|k: int| 0 <= k < out@.len() && slots[k] == m;
                assert(out@[k] == self@[va]);
            }
            assert forall|k: int, l: int| 0 <= k < l < out@.len() implies #[trigger] out@[k].virtual_address
                != #[trigger] out@[l].virtual_address by {
                assert(slots[k] < slots[l]);
                assert(self.mappings@[slots[k]] is Some);
                assert(self.mappings@[slots[l]] is Some);
            }
        }
        out
    }

    /// Every mapped page is a user page that is never writable and executable at once.
    pub proof fn lemma_mapped_pages_are_wx_exclusive(&self, va: usize)
        requires
            self.wf(),
            self@.contains_key(va),
        ensures
            self@[va].flags.user,
            !(self@[va].flags.writable && self@[va].flags.executable),
            valid_user_page(va as int),
    {
    }

    /// The pieces of a copy of `chunks`' data moved `by` bytes further into a larger
    /// buffer.
    pub open spec fn shift_chunks(chunks: Seq<LoadChunk>, by: int) -> Seq<LoadChunk> {
        Seq::new(
            chunks.len(),
            |i: int|
                LoadChunk {
                    frame: chunks[i].frame,
                    offset: chunks[i].offset,
                    start: (chunks[i].start + by) as usize,
                    count: chunks[i].count,
                },
        )
    }

    /// The pieces `load_words` writes for its first `n` words at `va`: each word's own
    /// copy of eight bytes at `va + 8 * i`, its pieces counted in the bytes of all the
    /// words.
    pub open spec fn words_plan(view: Map<usize, MappingInfo>, va: int, n: int) -> Seq<LoadChunk>
        decreases n,
    {
        if n <= 0 {
            Seq::empty()
        } else {
            Self::words_plan(view, va, n - 1) + Self::shift_chunks(
                Self::load_chunks(view, va + 8 * (n - 1), 0, 8),
                8 * (n - 1),
            )
        }
    }

    /// Every piece of the first `n` words lies within their `8 * n` bytes.
    pub proof fn lemma_words_plan_within(view: Map<usize, MappingInfo>, va: int, n: int)
        requires
            0 <= va,
            0 <= n,
        ensures
            forall|i: int| 0 <= i < Self::words_plan(view, va, n).len() ==> #[trigger] Self::words_plan(view, va, n)[i].start
                + Self::words_plan(view, va, n)[i].count <= 8 * n,
        decreases n,
    {
        if n > 0 {
            Self::lemma_words_plan_within(view, va, n - 1);
            Self::lemma_chunks_within(view, va + 8 * (n - 1), 0, 8);
            let a = Self::words_plan(view, va, n - 1);
            let c = Self::load_chunks(view, va + 8 * (n - 1), 0, 8);
            assert forall|i: int| 0 <= i < Self::words_plan(view, va, n).len() implies #[trigger] Self::words_plan(view, va, n)[i].start
                + Self::words_plan(view, va, n)[i].count <= 8 * n by {
                if i >= a.len() {
                    let k = i - a.len();
                    if c.len() > 0 {
                        assert(va + 8 * (n - 1) <= usize::MAX);
                    }
                    assert(c[k].start + 8 * (n - 1) <= usize::MAX);
                }
            }
        }
    }

    /// Every byte `load_words` writes lands where its own address says, as with `load`:
    /// byte `j` of piece `i` (data byte `start + j`, address `va + start + j`) goes to
    /// that address's page frame at its offset in the page. So storing words one by one
    /// leaves the same memory as one copy of their little-endian bytes.
    pub proof fn law_words_plan_places_bytes(view: Map<usize, MappingInfo>, va: int, n: int, i: int, j: int)
        requires
            0 <= va,
            0 <= i < Self::words_plan(view, va, n).len(),
            0 <= j < Self::words_plan(view, va, n)[i].count,
        ensures
            ({
                let c = Self::words_plan(view, va, n)[i];
                let a = (va + c.start + j) as usize;
                &&& va + c.start + j <= usize::MAX
                &&& view.contains_key(page_of(a))
                &&& Self::byte_target(view, a) == (c.frame, c.offset + j)
            }),
        decreases n,
    {
        let a = Self::words_plan(view, va, n - 1);
        let c = Self::load_chunks(view, va + 8 * (n - 1), 0, 8);
        if i < a.len() {
            Self::law_words_plan_places_bytes(view, va, n - 1, i, j);
        } else {
            let k = i - a.len();
            Self::lemma_chunks_within(view, va + 8 * (n - 1), 0, 8);
            assert(va + 8 * (n - 1) <= usize::MAX);
            Self::law_load_places_bytes(view, va + 8 * (n - 1), 0, 8, k, j);
            assert(Self::words_plan(view, va, n)[i].start == c[k].start + 8 * (n - 1));
        }
    }

    /// The bytes of word `index` appended to those of the words before it keep each word
    /// readable at its own slot.
    proof fn lemma_word_bytes(data: Seq<u8>, bytes: Seq<u8>, words: Seq<u64>, index: int)
        requires
            0 <= index < words.len(),
            data.len() == 8 * index,
            bytes.len() == 8,
            crate::bytes::spec_le_u64(bytes, 0) == words[index],
            forall|w: int| 0 <= w < index ==> #[trigger] crate::bytes::spec_le_u64(data, 8 * w) == words[w],
        ensures
            forall|w: int| 0 <= w < index + 1 ==> #[trigger] crate::bytes::spec_le_u64(data + bytes, 8 * w) == words[w],
    {
        let data1 = data + bytes;
        assert forall|w: int| 0 <= w < index + 1 implies #[trigger] crate::bytes::spec_le_u64(data1, 8 * w)
            == words[w] by {
            if w < index {
                crate::bytes::lemma_le_u64_same(data1, data, 8 * w);
            } else {
                assert(data1[8 * index + 0] == bytes[0]);
                assert(data1[8 * index + 1] == bytes[1]);
                assert(data1[8 * index + 2] == bytes[2]);
                assert(data1[8 * index + 3] == bytes[3]);
                assert(data1[8 * index + 4] == bytes[4]);
                assert(data1[8 * index + 5] == bytes[5]);
                assert(data1[8 * index + 6] == bytes[6]);
                assert(data1[8 * index + 7] == bytes[7]);
            }
        }
    }

    /// Storing word `index` at `address` extends what the words before it issued by the
    /// pieces of its own copy: together they are a prefix of the plan for one more word.
    proof fn lemma_words_step(
        view: Map<usize, MappingInfo>,
        va: int,
        index: int,
        address: int,
        data: Seq<u8>,
        bytes: Seq<u8>,
        req0: Seq<PlatformRequest>,
        ra: Seq<PlatformRequest>,
        r1: Seq<PlatformRequest>,
        w0: Seq<Seq<u8>>,
        wa: Seq<Seq<u8>>,
        w1: Seq<Seq<u8>>,
        refused: bool,
    )
        requires
            0 <= va,
            0 <= index,
            address == va + 8 * index,
            address <= usize::MAX,
            data.len() == 8 * index,
            bytes.len() == 8,
            ra == req0 + Self::write_requests(
                Self::words_plan(view, va, index),
                Self::words_plan(view, va, index).len() as int,
                false,
            ),
            wa == w0 + Self::written_pieces(
                Self::words_plan(view, va, index),
                data,
                Self::words_plan(view, va, index).len() as int,
            ),
            Self::copy_issued(Self::load_chunks(view, address, 0, 8), bytes, ra, r1, wa, w1, refused),
        ensures
            ({
                let plan1 = Self::words_plan(view, va, index + 1);
                let k = Self::words_plan(view, va, index).len() + (r1.len() - ra.len());
                &&& k <= plan1.len()
                &&& r1 == req0 + Self::write_requests(plan1, k, refused)
                &&& w1 == w0 + Self::written_pieces(plan1, data + bytes, k)
                &&& (r1.len() - ra.len() == Self::load_chunks(view, address, 0, 8).len() ==> k == plan1.len())
            }),
    {
        let plan0 = Self::words_plan(view, va, index);
        let chunks = Self::load_chunks(view, address, 0, 8);
        let plan1 = Self::words_plan(view, va, index + 1);
        let data1 = data + bytes;
        let k = r1.len() - ra.len();
        assert(plan1 == plan0 + Self::shift_chunks(chunks, 8 * index));
        Self::lemma_words_plan_within(view, va, index);
        Self::lemma_chunks_within(view, address, 0, 8);
        assert(r1 =~= req0 + Self::write_requests(plan1, plan0.len() + k, refused));
        let a = Self::written_pieces(plan0, data, plan0.len() as int);
        let b = Self::written_pieces(chunks, bytes, k);
        assert forall|t: int| 0 <= t < plan0.len() + k implies #[trigger] Self::written_pieces(
            plan1,
            data1,
            plan0.len() + k,
        )[t] =~= (a + b)[t] by {
            if t < plan0.len() {
                assert(plan1[t] == plan0[t]);
            } else {
                let u = t - plan0.len();
                assert(plan1[t] == Self::shift_chunks(chunks, 8 * index)[u]);
                assert(address + chunks[u].start <= usize::MAX);
            }
        }
        assert(Self::written_pieces(plan1, data1, plan0.len() + k) =~= a + b);
        assert(w1 =~= w0 + Self::written_pieces(plan1, data1, plan0.len() + k));
    }

    /// `load_words` stored the first `m` of `words`, whose little-endian bytes are
    /// `data`: the platform went from `req0`, `w0` to `req1`, `w1` by the pieces of
    /// their `words_plan` in order, a refused one ending them with
    /// `HardwareUnavailable`; on success every word was stored, every piece written.
    pub open spec fn words_stored(
        view: Map<usize, MappingInfo>,
        va: int,
        words: Seq<u64>,
        data: Seq<u8>,
        m: int,
        req0: Seq<PlatformRequest>,
        req1: Seq<PlatformRequest>,
        w0: Seq<Seq<u8>>,
        w1: Seq<Seq<u8>>,
        r: Result<(), Error>,
    ) -> bool {
        &&& 0 <= m <= words.len()
        &&& data.len() == 8 * m
        &&& forall|w: int| 0 <= w < m ==> #[trigger] crate::bytes::spec_le_u64(data, 8 * w) == words[w]
        &&& Self::copy_issued(
            Self::words_plan(view, va, m),
            data,
            req0,
            req1,
            w0,
            w1,
            r == Err::<(), Error>(Error::HardwareUnavailable),
        )
        &&& r is Ok ==> m == words.len() && req1.len() == req0.len() + Self::words_plan(view, va, m).len()
    }

    /// Stores each word little-endian at consecutive 8-byte slots from `virtual_address`,
    /// one `load` per word: the platform receives, in order, the pieces of `words_plan`
    /// with the words' little-endian bytes, up to the first failing word. The outcome is
    /// that of `load` on all the words' bytes at once, and no words is always a success.
    pub fn load_words<P: Platform>(&self, platform: &mut P, virtual_address: usize, words: &[u64]) -> (r:
        Result<(), Error>)
        requires
            self.wf(),
        ensures
            words@.len() == 0 ==> r == Ok::<(), Error>(()) && final(platform).requests() == old(platform).requests()
                && final(platform).written() == old(platform).written(),
            words@.len() > 0 ==> self.load_outcome(virtual_address as int, 8 * (words@.len() as int), r),
            exists|data: Seq<u8>, m: int|
                #[trigger] Self::words_stored(
                    self@,
                    virtual_address as int,
                    words@,
                    data,
                    m,
                    old(platform).requests(),
                    final(platform).requests(),
                    old(platform).written(),
                    final(platform).written(),
                    r,
                ),
    {
        let ghost va = virtual_address as int;
        let ghost n = words@.len() as int;
        let ghost req0 = platform.requests();
        let ghost w0 = platform.written();
        let ghost mut data: Seq<u8> = Seq::empty();
        proof {
            assert(req0 + Self::write_requests(Self::words_plan(self@, va, 0), 0, false) =~= req0);
            assert(w0 + Self::written_pieces(Self::words_plan(self@, va, 0), data, 0) =~= w0);
        }
        let mut index: usize = 0;
        while index < words.len()
            invariant
                self.wf(),
                index <= words@.len(),
                n == words@.len(),
                va == virtual_address,
                index > 0 ==> self.spec_root_frame() is Some,
                va + 8 * index <= usize::MAX + 8,
                index > 0 ==> va + 8 * index <= usize::MAX,
                self.covers(va, 8 * index),
                req0 == old(platform).requests(),
                w0 == old(platform).written(),
                data.len() == 8 * index,
                forall|w: int| 0 <= w < index ==> #[trigger] crate::bytes::spec_le_u64(data, 8 * w) == words@[w],
                platform.requests() == req0 + Self::write_requests(
                    Self::words_plan(self@, va, index as int),
                    Self::words_plan(self@, va, index as int).len() as int,
                    false,
                ),
                platform.written() == w0 + Self::written_pieces(
                    Self::words_plan(self@, va, index as int),
                    data,
                    Self::words_plan(self@, va, index as int).len() as int,
                ),
            decreases words@.len() - index,
        {
            let ghost plan0 = Self::words_plan(self@, va, index as int);
            let step = match index.checked_mul(8) {
                Some(step) => step,
                None => {
                    proof {
                        assert(Self::copy_issued(plan0, data, req0, platform.requests(), w0, platform.written(), false));
                        assert(Self::words_stored(self@, va, words@, data, index as int, req0, platform.requests(), w0, platform.written(), Err(Error::InvalidAddress)));
                    }
                    return Err(Error::InvalidAddress);
                },
            };
            let address = match virtual_address.checked_add(step) {
                Some(address) => address,
                None => {
                    proof {
                        assert(Self::copy_issued(plan0, data, req0, platform.requests(), w0, platform.written(), false));
                        assert(Self::words_stored(self@, va, words@, data, index as int, req0, platform.requests(), w0, platform.written(), Err(Error::InvalidAddress)));
                    }
                    return Err(Error::InvalidAddress);
                },
            };
            let bytes = crate::bytes::u64_to_le_bytes(words[index]);
            let ghost ra = platform.requests();
            let ghost wa = platform.written();
            let ghost data1 = data + bytes@;
            proof {
                Self::lemma_word_bytes(data, bytes@, words@, index as int);
            }
            let outcome = self.load(platform, address, bytes.as_slice());
            proof {
                let refused = outcome == Err::<(), Error>(Error::HardwareUnavailable);
                if self.spec_root_frame() is None {
                    assert(ra + Self::write_requests(Self::load_chunks(self@, address as int, 0, 8), 0, refused) =~= ra);
                    assert(wa + Self::written_pieces(Self::load_chunks(self@, address as int, 0, 8), bytes@, 0) =~= wa);
                }
                Self::lemma_words_step(
                    self@,
                    va,
                    index as int,
                    address as int,
                    data,
                    bytes@,
                    req0,
                    ra,
                    platform.requests(),
                    w0,
                    wa,
                    platform.written(),
                    refused,
                );
                data = data1;
            }
            match outcome {
                Ok(()) => {},
                Err(e) => {
                    proof {
                        if e == Error::InvalidAddress && address + 8 <= usize::MAX {
                            let j = choose|j: int| 0 <= j < 8 && !#[trigger] self@.contains_key(
                                page_of((address + j) as usize),
                            );
                            assert(!self@.contains_key(page_of((va + (8 * index + j)) as usize)));
                        }
                        assert(Self::words_stored(self@, va, words@, data, index + 1, req0, platform.requests(), w0, platform.written(), Err(e)));
                    }
                    return Err(e);
                },
            }
            proof {
                assert forall|k: int| 0 <= k < 8 * (index + 1) implies #[trigger] self@.contains_key(
                    page_of((va + k) as usize),
                ) by {
                    if k >= 8 * index {
                        assert(self@.contains_key(page_of((address + (k - 8 * index)) as usize)));
                    }
                }
            }
            index += 1;
        }
        proof {
            assert(Self::words_stored(self@, va, words@, data, index as int, req0, platform.requests(), w0, platform.written(), Ok(())));
        }
        Ok(())
    }
}

/// A platform held in ordinary memory, for running address spaces where no machine is
/// present: frames come from a window of `frames` pages at `FIRST_FRAME` by a bump
/// allocator, every table and memory operation succeeds, and each request is kept in
/// the public fields for inspection.
pub struct MemoryPlatform {
    pub next: u64,
    pub limit: u64,
    pub freed: Vec<u64>,
    pub mapped: Vec<(u64, usize)>,
    pub unmapped: Vec<usize>,
    pub writes: Vec<(u64, usize, Vec<u8>)>,
    pub prepared: bool,
    pub log: Ghost<Seq<PlatformRequest>>,
    pub bytes_log: Ghost<Seq<Seq<u8>>>,
    pub frame_log: Ghost<Seq<FrameRequest>>,
}

/// The first frame a `MemoryPlatform` hands out.
pub const FIRST_FRAME: u64 = 0x10_0000;

impl MemoryPlatform {
    /// A platform with `frames` free frames from `FIRST_FRAME` on, nothing asked yet.
    pub fn new(frames: u64) -> (r: Self)
        requires
            FIRST_FRAME + frames * 4096 <= u64::MAX,
        ensures
            r.next == FIRST_FRAME,
            r.limit == FIRST_FRAME + frames * 4096,
            r.freed@.len() == 0,
            r.mapped@.len() == 0,
            r.unmapped@.len() == 0,
            r.writes@.len() == 0,
            !r.prepared,
            r.requests().len() == 0,
            r.written().len() == 0,
    {
        MemoryPlatform {
            next: FIRST_FRAME,
            limit: FIRST_FRAME + frames * 4096,
            freed: Vec::new(),
            mapped: Vec::new(),
            unmapped: Vec::new(),
            writes: Vec::new(),
            prepared: false,
            log: Ghost(Seq::empty()),
            bytes_log: Ghost(Seq::empty()),
            frame_log: Ghost(Seq::empty()),
        }
    }
}

impl Platform for MemoryPlatform {
    open spec fn requests(&self) -> Seq<PlatformRequest> {
        self.log@
    }

    open spec fn written(&self) -> Seq<Seq<u8>> {
        self.bytes_log@
    }

    open spec fn frame_requests(&self) -> Seq<FrameRequest> {
        self.frame_log@
    }

    fn alloc_frame(&mut self) -> (r: Option<u64>)
        ensures
            old(self).next < old(self).limit && old(self).next + 4096 <= u64::MAX ==> r == Some(old(self).next)
                && final(self).next == old(self).next + 4096,
            !(old(self).next < old(self).limit && old(self).next + 4096 <= u64::MAX) ==> r is None
                && final(self).next == old(self).next,
            final(self).limit == old(self).limit,
    {
        if self.next >= self.limit || self.next > u64::MAX - 4096 {
            proof {
                self.frame_log@ = self.frame_log@.push(FrameRequest::Alloc(None));
            }
            return None;
        }
        let frame = self.next;
        self.next = self.next + 4096;
        proof {
            self.frame_log@ = self.frame_log@.push(FrameRequest::Alloc(Some(frame)));
        }
        Some(frame)
    }

    fn free_frame(&mut self, frame: u64) -> (r: bool)
        ensures
            r,
            final(self).freed@ == old(self).freed@.push(frame),
    {
        self.freed.push(frame);
        proof {
            self.frame_log@ = self.frame_log@.push(FrameRequest::Free(frame, true));
        }
        true
    }

    fn zero_physical_page(&mut self, frame: PhysAddr) -> (r: bool)
        ensures
            r,
    {
        proof {
            self.frame_log@ = self.frame_log@.push(FrameRequest::Zero(frame, true));
        }
        true
    }

    fn user_space_prepare(&mut self, root: PhysAddr) -> (r: bool)
        ensures
            r,
            final(self).prepared,
    {
        self.prepared = true;
        proof {
            self.log@ = self.log@.push(PlatformRequest::PrepareRoot(root, true));
        }
        true
    }

    fn user_space_map(
        &mut self,
        root: PhysAddr,
        mapping: MappingInfo,
        tables: &mut Vec<Option<PhysAddr>>,
    ) -> (r: bool)
        ensures
            r,
            final(self).mapped@ == old(self).mapped@.push((root.0, mapping.virtual_address)),
    {
        self.mapped.push((root.0, mapping.virtual_address));
        proof {
            self.log@ = self.log@.push(PlatformRequest::MapPage(root, mapping, true));
        }
        true
    }

    fn user_space_unmap(
        &mut self,
        root: PhysAddr,
        virtual_address: usize,
        tables: &mut Vec<Option<PhysAddr>>,
    ) -> (r: bool)
        ensures
            r,
            final(self).unmapped@ == old(self).unmapped@.push(virtual_address),
    {
        self.unmapped.push(virtual_address);
        true
    }

    fn user_space_reset(&mut self, root: PhysAddr) {
    }

    fn restore_kernel_address_space(&mut self) {
    }

    fn write_physical(&mut self, frame: PhysAddr, offset: usize, bytes: &[u8]) -> (r: bool)
        ensures
            r,
            final(self).writes@.len() == old(self).writes@.len() + 1,
            final(self).writes@.last().0 == frame.0,
            final(self).writes@.last().1 == offset,
            final(self).writes@.last().2@ == bytes@,
    {
        let copy = vstd::slice::slice_to_vec(bytes);
        self.writes.push((frame.0, offset, copy));
        proof {
            self.log@ = self.log@.push(PlatformRequest::WritePhysical(frame, offset, true));
            self.bytes_log@ = self.bytes_log@.push(bytes@);
        }
        true
    }
}

/// Mapping a page makes `mapping` report it: a successful map followed by a lookup
/// of the same address gives back the mapping that was made.
pub proof fn law_map_then_lookup(
    before: AddressSpace,
    after: AddressSpace,
    va: usize,
    flags: PageFlags,
    kind: MappingKind,
    info: MappingInfo,
)
    requires
        AddressSpace::map_outcome(&before, &after, va, flags, kind, Ok(info)),
    ensures
        after@.contains_key(va),
        after@[va] == info,
        info.flags == flags,
        info.kind == kind,
        forall|other: usize| other != va ==> #[trigger] after@.contains_key(other) == before@.contains_key(other),
{
}

/// Unmapping a page that was just mapped restores the previous set of mappings.
pub proof fn law_map_then_unmap_restores(
    before: AddressSpace,
    mapped: AddressSpace,
    unmapped: AddressSpace,
    va: usize,
    flags: PageFlags,
    info: MappingInfo,
)
    requires
        AddressSpace::map_outcome(&before, &mapped, va, flags, MappingKind::Anonymous, Ok(info)),
        unmapped@ == mapped@.remove(va),
    ensures
        unmapped@ == before@,
{
    assert(!before@.contains_key(va));
    assert(unmapped@ =~= before@);
}

/// A refused mapping leaves the set of mappings as it was.
pub proof fn law_refused_map_changes_nothing(
    before: AddressSpace,
    after: AddressSpace,
    va: usize,
    flags: PageFlags,
    kind: MappingKind,
    e: Error,
)
    requires
        AddressSpace::map_outcome(&before, &after, va, flags, kind, Err(e)),
    ensures
        after@ == before@,
        after.same_layout(&before),
{
}

/// How many of `answers` report that the stack grew.
pub open spec fn growths(answers: Seq<Result<bool, Error>>) -> nat
    decreases answers.len(),
{
    if answers.len() == 0 {
        0
    } else {
        growths(answers.drop_last()) + if answers.last() == Ok::<bool, Error>(true) {
            1nat
        } else {
            0nat
        }
    }
}

/// Along any run of stack growths that starts from a freshly mapped stack, at most
/// `MAX_STACK_PAGES - INITIAL_STACK_PAGES` growths succeed: each success adds one
/// page, and a stack at its limit answers `Ok(false)`.
pub proof fn law_stack_growth_bounded(
    spaces: Seq<AddressSpace>,
    fault_addresses: Seq<usize>,
    answers: Seq<Result<bool, Error>>,
)
    requires
        spaces.len() == answers.len() + 1,
        fault_addresses.len() == answers.len(),
        spaces[0].spec_stack_pages() == INITIAL_STACK_PAGES,
        forall|i: int|
            0 <= i < answers.len() ==> #[trigger] AddressSpace::grow_outcome(
                &spaces[i],
                &spaces[i + 1],
                fault_addresses[i],
                answers[i],
            ),
    ensures
        growths(answers) <= MAX_STACK_PAGES - INITIAL_STACK_PAGES,
        spaces.last().spec_stack_pages() == INITIAL_STACK_PAGES + growths(answers),
    decreases answers.len(),
{
    if answers.len() > 0 {
        let n = answers.len() - 1;
        let fewer = answers.drop_last();
        law_stack_growth_bounded(spaces.drop_last(), fault_addresses.drop_last(), fewer);
        assert(AddressSpace::grow_outcome(&spaces[n], &spaces[n + 1], fault_addresses[n], answers[n]));
        assert(spaces.drop_last().last() == spaces[n]);
    }
}

/// Along any run of operations on a space created for `owner`, the space keeps that
/// owner and its root table until it is destroyed; from then on it has neither, for good.
pub proof fn law_owner_fixed_until_destroy(spaces: Seq<AddressSpace>, owner: ProcessId)
    requires
        spaces.len() > 0,
        spaces[0].spec_owner() == Some(owner),
        spaces[0].spec_root_frame() is Some,
        forall|i: int|
            0 <= i < spaces.len() - 1 ==> #[trigger] AddressSpace::identity_kept_or_dropped(
                &spaces[i],
                &spaces[i + 1],
            ),
    ensures
        forall|k: int|
            0 <= k < spaces.len() ==> owner_or_torn_down(#[trigger] spaces[k], owner, spaces[0].spec_root_frame()),
        forall|j: int, k: int|
            0 <= j <= k < spaces.len() && (#[trigger] spaces[j]).spec_root_frame() is None ==> torn_down(
                #[trigger] spaces[k],
            ),
    decreases spaces.len(),
{
    if spaces.len() > 1 {
        let n = spaces.len() - 1;
        let fewer = spaces.drop_last();
        assert forall|i: int| 0 <= i < fewer.len() - 1 implies #[trigger] AddressSpace::identity_kept_or_dropped(
            &fewer[i],
            &fewer[i + 1],
        ) by {
            assert(AddressSpace::identity_kept_or_dropped(&spaces[i], &spaces[i + 1]));
        }
        law_owner_fixed_until_destroy(fewer, owner);
        let m = n - 1;
        assert(AddressSpace::identity_kept_or_dropped(&spaces[m], &spaces[m + 1]));
        assert(fewer[n - 1] == spaces[n - 1]);
        assert(owner_or_torn_down(fewer[n - 1], owner, spaces[0].spec_root_frame()));
        assert forall|k: int| 0 <= k < spaces.len() implies owner_or_torn_down(
            #[trigger] spaces[k],
            owner,
            spaces[0].spec_root_frame(),
        ) by {
            if k < n {
                assert(fewer[k] == spaces[k]);
            }
        }
        assert forall|j: int, k: int|
            0 <= j <= k < spaces.len() && (#[trigger] spaces[j]).spec_root_frame() is None implies torn_down(
            #[trigger] spaces[k],
        ) by {
            if k < n {
                assert(fewer[k] == spaces[k]);
                assert(fewer[j] == spaces[j]);
            } else if j < n {
                assert(fewer[j] == spaces[j]);
                assert(torn_down(fewer[n - 1]));
            } else {
                assert(owner_or_torn_down(spaces[n], owner, spaces[0].spec_root_frame()));
            }
        }
    }
}

/// The space belongs to `owner` with root table `root`, or it has been torn down.
pub open spec fn owner_or_torn_down(space: AddressSpace, owner: ProcessId, root: Option<PhysAddr>) -> bool {
    ||| space.spec_owner() == Some(owner) && space.spec_root_frame() == root
    ||| torn_down(space)
}

/// The space has neither owner nor root table.
pub open spec fn torn_down(space: AddressSpace) -> bool {
    space.spec_owner() is None && space.spec_root_frame() is None
}

} // verus!
