use vstd::prelude::*;
use crate::bytes::{le_u32, spec_le_u32, zeroes};
use vstd::slice::slice_to_vec;

verus! {

pub const SECTOR_SIZE: usize = 512;
pub const RAMDISK_SECTORS: usize = 32;
pub const RAMDISK_BYTES: usize = 16384;
pub const QUEUE_DEPTH: usize = 8;
pub const REQUEST_TIMEOUT_POLLS: usize = 64;
pub const MAX_PARTITIONS: usize = 4;

#[derive(Clone, Copy, Debug, PartialEq, Eq, Structural)]
pub enum BackendKind {
    Ramdisk,
    VirtioBlk,
}

#[derive(Clone, Copy, Debug, PartialEq, Eq, Structural)]
pub enum Error {
    NotReady,
    InvalidRequest,
    OutOfRange,
    ReadOnly,
    Busy,
    Timeout,
    Unsupported,
}

#[derive(Clone, Copy, Debug, PartialEq, Eq, Structural)]
pub enum CacheMode {
    WriteThrough,
    WriteBack,
}

impl CacheMode {
    pub fn name(self) -> (r: &'static str)
        ensures
            r == (match self {
                CacheMode::WriteThrough => "write-through",
                CacheMode::WriteBack => "write-back",
            }),
    {
        match self {
            CacheMode::WriteThrough => "write-through",
            CacheMode::WriteBack => "write-back",
        }
    }
}

#[derive(Clone, Copy, Debug, PartialEq, Eq, Structural)]
pub struct Geometry {
    pub sector_size: usize,
    pub sectors: u64,
    pub read_only: bool,
}

#[derive(Clone, Copy, Debug, PartialEq, Eq, Structural)]
pub struct Partition {
    pub index: u8,
    pub type_code: u8,
    pub start_lba: u64,
    pub sectors: u64,
}

#[derive(Clone, Copy, Debug, PartialEq, Eq, Structural)]
pub struct Stats {
    pub geometry: Geometry,
    pub queue_capacity: usize,
    pub in_flight: usize,
    pub completed: u64,
    pub timeouts: u64,
    pub partition_count: usize,
    pub cache_mode: CacheMode,
}

/// A submitted request, by its queue slot.
#[derive(Clone, Copy, Debug, PartialEq, Eq, Structural)]
pub struct RequestId {
    pub index: u8,
}

#[derive(Clone, Copy, Debug, PartialEq, Eq, Structural)]
pub enum Operation {
    Read,
    Write,
}

#[derive(Clone, Copy, Debug, PartialEq, Eq, Structural)]
pub enum RequestState {
    Free,
    Queued,
    Complete,
}

/// A queue slot: what is asked, and for a write the bytes to write, for a
/// completed read the bytes read.
pub struct Request {
    pub state: RequestState,
    pub operation: Operation,
    pub lba: u64,
    pub length: usize,
    pub data: Vec<u8>,
    pub error: Option<Error>,
}

impl Request {
    pub fn empty() -> (r: Self)
        ensures
            r.state == RequestState::Free && r.length == 0 && r.data@.len() == 0 && r.error is None,
    {
        Request { state: RequestState::Free, operation: Operation::Read, lba: 0, length: 0, data: Vec::new(), error: None }
    }
}

/// A device that stores sectors for the persistent backend.
pub trait SectorDevice {
    fn read_sector(&mut self, lba: u64, output: &mut Vec<u8>) -> bool;

    fn write_sector(&mut self, lba: u64, input: &[u8]) -> bool;

    fn flush(&mut self) -> bool;
}

/// The little-endian 32-bit value at `offset` of an MBR.
pub fn mbr_u32(bytes: &[u8], offset: usize) -> (r: u32)
    requires
        offset + 4 <= bytes@.len(),
    ensures
        r == spec_le_u32(bytes@, offset as int),
{
    le_u32(bytes, offset)
}

/// The disk after `data` is written at sector `lba`.
pub open spec fn written(disk: Seq<u8>, lba: int, data: Seq<u8>) -> Seq<u8> {
    disk.subrange(0, lba * SECTOR_SIZE) + data + disk.subrange(
        lba * SECTOR_SIZE + data.len(),
        disk.len() as int,
    )
}

/// What is read from `disk` at sector `lba`, `length` bytes.
pub open spec fn read_back(disk: Seq<u8>, lba: int, length: int) -> Seq<u8> {
    disk.subrange(lba * SECTOR_SIZE, lba * SECTOR_SIZE + length)
}

/// Reading back what was just written gives the written bytes.
pub proof fn law_read_after_write(disk: Seq<u8>, lba: int, data: Seq<u8>)
    requires
        0 <= lba,
        lba * SECTOR_SIZE + data.len() <= disk.len(),
    ensures
        read_back(written(disk, lba, data), lba, data.len() as int) == data,
        written(disk, lba, data).len() == disk.len(),
{
    assert(read_back(written(disk, lba, data), lba, data.len() as int) =~= data);
}

/// The block layer: its backend, the request queue, the partitions found and the
/// ramdisk's contents.
pub struct BlockLayer {
    pub ready: bool,
    pub read_only: bool,
    pub hardware_read_only: bool,
    pub backend: BackendKind,
    pub data_sectors: u64,
    pub cache_mode: CacheMode,
    pub completed: u64,
    pub timeouts: u64,
    pub queue: Vec<Request>,
    pub partitions: Vec<Partition>,
    pub ramdisk: Vec<u8>,
}

/// The first free slot among the first `n`.
pub open spec fn first_free(queue: Seq<Request>, n: int) -> Option<int>
    decreases n,
{
    if n <= 0 {
        None
    } else {
        match first_free(queue, n - 1) {
            Some(i) => Some(i),
            None => if queue[n - 1].state == RequestState::Free {
                Some(n - 1)
            } else {
                None
            },
        }
    }
}

proof fn lemma_first_free_found(queue: Seq<Request>, i: int, n: int)
    requires
        0 <= i < n,
        first_free(queue, i) is None,
        queue[i].state == RequestState::Free,
    ensures
        first_free(queue, n) == Some(i),
    decreases n,
{
    if n > i + 1 {
        lemma_first_free_found(queue, i, n - 1);
    }
}

/// `after` is `before` with request `id` queued: an `operation` of `length` bytes at
/// sector `lba`, with `data` to write.
pub open spec fn queued_as(
    before: BlockLayer,
    after: BlockLayer,
    id: RequestId,
    operation: Operation,
    lba: u64,
    length: usize,
    data: Seq<u8>,
) -> bool {
    &&& Some(id.index as int) == first_free(before.queue@, QUEUE_DEPTH as int)
    &&& id.index < QUEUE_DEPTH
    &&& after.queue@.len() == QUEUE_DEPTH
    &&& after.queue@[id.index as int].state == RequestState::Queued
    &&& after.queue@[id.index as int].operation == operation
    &&& after.queue@[id.index as int].lba == lba
    &&& after.queue@[id.index as int].length == length
    &&& after.queue@[id.index as int].data@ == data
    &&& after.queue@[id.index as int].error is None
    &&& forall|i: int| 0 <= i < QUEUE_DEPTH && i != id.index ==> after.queue@[i] == before.queue@[i]
    &&& after.ramdisk == before.ramdisk
    &&& after.read_only == before.read_only && after.ready == before.ready && after.backend
        == before.backend && after.data_sectors == before.data_sectors
    &&& after.completed == before.completed && after.timeouts == before.timeouts
    &&& after.partitions == before.partitions
    &&& after.hardware_read_only == before.hardware_read_only && after.cache_mode
        == before.cache_mode
}

/// How many of the first `n` queue slots hold a request.
pub open spec fn busy_count(queue: Seq<Request>, n: int) -> int
    decreases n,
{
    if n <= 0 {
        0
    } else {
        busy_count(queue, n - 1) + if queue[n - 1].state != RequestState::Free {
            1int
        } else {
            0int
        }
    }
}

/// Slots that agree but at `k`, which is free in `a` and taken in `b`, count one more
/// in `b` once `k` is among them.
proof fn lemma_busy_count_step(a: Seq<Request>, b: Seq<Request>, k: int, n: int)
    requires
        0 <= k,
        n <= a.len(),
        a.len() == b.len(),
        a[k].state == RequestState::Free,
        b[k].state != RequestState::Free,
        forall|i: int| 0 <= i < a.len() && i != k ==> a[i] == b[i],
    ensures
        busy_count(b, n) == busy_count(a, n) + if k < n { 1int } else { 0int },
    decreases n,
{
    if n > 0 {
        lemma_busy_count_step(a, b, k, n - 1);
    }
}

/// Submitting a request takes one more slot: a queue with request `id` just queued has
/// one more request in flight than before.
pub proof fn law_submit_takes_a_slot(
    before: BlockLayer,
    after: BlockLayer,
    id: RequestId,
    operation: Operation,
    lba: u64,
    length: usize,
    data: Seq<u8>,
)
    requires
        before.wf(),
        queued_as(before, after, id, operation, lba, length, data),
    ensures
        busy_count(after.queue@, QUEUE_DEPTH as int) == busy_count(before.queue@, QUEUE_DEPTH as int) + 1,
{
    lemma_first_free_is_free(before.queue@, QUEUE_DEPTH as int);
    lemma_busy_count_step(before.queue@, after.queue@, id.index as int, QUEUE_DEPTH as int);
}

/// The slot `first_free` names is free.
proof fn lemma_first_free_is_free(queue: Seq<Request>, n: int)
    ensures
        first_free(queue, n) matches Some(i) ==> 0 <= i < n && queue[i].state == RequestState::Free,
    decreases n,
{
    if n > 0 {
        lemma_first_free_is_free(queue, n - 1);
    }
}

/// A queued request stays inside the ramdisk, and a write carries its bytes.
pub open spec fn request_fits(request: Request, backend: BackendKind) -> bool {
    request.state == RequestState::Queued ==> (backend == BackendKind::Ramdisk ==> request.lba
        * SECTOR_SIZE + request.length <= RAMDISK_BYTES) && (request.operation == Operation::Write
        ==> request.data@.len() == request.length)
}

/// No slot but `j` holds a queued request.
pub open spec fn only_queued(queue: Seq<Request>, j: int) -> bool {
    forall|i: int| 0 <= i < queue.len() && i != j ==> (#[trigger] queue[i]).state
        != RequestState::Queued
}

/// Request `before`, queued alone on the ramdisk `disk`, completed as `after` and
/// left the ramdisk as `disk_after`.
pub open spec fn completed_alone(disk: Seq<u8>, before: Request, disk_after: Seq<u8>, after: Request) -> bool {
    before.state == RequestState::Queued ==> {
        &&& after.state == RequestState::Complete
        &&& after.error is None
        &&& after.length == before.length
        &&& after.operation == before.operation
        &&& before.operation == Operation::Write ==> disk_after == written(
            disk,
            before.lba as int,
            before.data@,
        )
        &&& before.operation == Operation::Read ==> disk_after == disk && after.data@
            == read_back(disk, before.lba as int, before.length as int)
    }
}

proof fn lemma_idle_has_free(queue: Seq<Request>)
    requires
        queue.len() == QUEUE_DEPTH,
        forall|i: int| 0 <= i < queue.len() ==> (#[trigger] queue[i]).state == RequestState::Free,
    ensures
        first_free(queue, QUEUE_DEPTH as int) == Some(0int),
{
    lemma_first_free_found(queue, 0, QUEUE_DEPTH as int);
}

/// Why a request is refused, if it is.
pub open spec fn submit_error(layer: BlockLayer, operation: Operation, lba: u64, length: usize) -> Option<
    Error,
> {
    if !layer.ready {
        Some(Error::NotReady)
    } else if length == 0 || length % SECTOR_SIZE != 0 {
        Some(Error::InvalidRequest)
    } else if operation == Operation::Write && layer.read_only {
        Some(Error::ReadOnly)
    } else if lba + length / SECTOR_SIZE > u64::MAX || lba + length / SECTOR_SIZE
        > layer.data_sectors {
        Some(Error::OutOfRange)
    } else if first_free(layer.queue@, QUEUE_DEPTH as int) is None {
        Some(Error::Busy)
    } else {
        None
    }
}

impl BlockLayer {
    pub open spec fn wf(&self) -> bool {
        &&& self.queue@.len() == QUEUE_DEPTH
        &&& forall|i: int| 0 <= i < QUEUE_DEPTH ==> #[trigger] request_fits(self.queue@[i], self.backend)
        &&& self.ramdisk@.len() == RAMDISK_BYTES
        &&& self.partitions@.len() <= MAX_PARTITIONS
        &&& self.backend == BackendKind::Ramdisk ==> self.data_sectors <= RAMDISK_SECTORS
    }

    /// No request is in flight.
    pub open spec fn idle(&self) -> bool {
        forall|i: int| 0 <= i < self.queue@.len() ==> (#[trigger] self.queue@[i]).state
            == RequestState::Free
    }

    pub fn geometry(&self) -> (r: Geometry)
        ensures
            r == (Geometry { sector_size: SECTOR_SIZE, sectors: self.data_sectors, read_only: self.read_only }),
    {
        Geometry { sector_size: SECTOR_SIZE, sectors: self.data_sectors, read_only: self.read_only }
    }

    pub fn backend(&self) -> (r: BackendKind)
        ensures
            r == self.backend,
    {
        self.backend
    }

    /// Writes survive a reboot only on the virtio backend.
    pub fn persistent(&self) -> (r: bool)
        ensures
            r == (self.backend == BackendKind::VirtioBlk),
    {
        self.backend == BackendKind::VirtioBlk
    }

    pub fn backend_name(&self) -> (r: &'static str)
        ensures
            r == (if self.backend == BackendKind::Ramdisk {
                "ramdisk"
            } else {
                "virtio-blk"
            }),
    {
        match self.backend {
            BackendKind::Ramdisk => "ramdisk",
            BackendKind::VirtioBlk => "virtio-blk",
        }
    }

    /// The partitions into `output`, as many as fit; returns how many.
    pub fn partitions(&self, output: &mut Vec<Partition>) -> (r: usize)
        ensures
            r == (if self.partitions@.len() < old(output)@.len() {
                self.partitions@.len() as int
            } else {
                old(output)@.len() as int
            }),
            final(output)@.len() == old(output)@.len(),
            final(output)@.take(r as int) == self.partitions@.take(r as int),
            final(output)@.skip(r as int) == old(output)@.skip(r as int),
    {
        let count = if self.partitions.len() < output.len() {
            self.partitions.len()
        } else {
            output.len()
        };
        let mut i: usize = 0;
        while i < count
            invariant
                count <= self.partitions@.len(),
                count <= output@.len(),
                output@.len() == old(output)@.len(),
                i <= count,
                forall|k: int| 0 <= k < i ==> output@[k] == self.partitions@[k],
                forall|k: int| i <= k < output@.len() ==> output@[k] == old(output)@[k],
            decreases count - i,
        {
            output.set(i, self.partitions[i]);
            i = i + 1;
        }
        assert(output@.take(count as int) == self.partitions@.take(count as int));
        assert(output@.skip(count as int) == old(output)@.skip(count as int));
        count
    }

    /// Makes the device read-only, or writable again unless the hardware is
    /// read-only.
    pub fn set_read_only(&mut self, read_only: bool)
        ensures
            final(self).read_only == (read_only || old(self).hardware_read_only),
            final(self).ramdisk == old(self).ramdisk && final(self).queue == old(self).queue,
            final(self).ready == old(self).ready && final(self).hardware_read_only == old(self).hardware_read_only && final(self).cache_mode == old(self).cache_mode && final(self).backend == old(self).backend
                && final(self).data_sectors == old(self).data_sectors && final(self).partitions
                == old(self).partitions && final(self).hardware_read_only == old(self).hardware_read_only,
    {
        self.read_only = read_only || self.hardware_read_only;
    }

    /// Only write-through caching is supported.
    pub fn set_cache_mode(&mut self, mode: CacheMode) -> (r: Result<(), Error>)
        ensures
            mode == CacheMode::WriteBack ==> r == Err::<(), Error>(Error::Unsupported)
                && final(self).cache_mode == old(self).cache_mode,
            mode == CacheMode::WriteThrough ==> r is Ok && final(self).cache_mode == mode,
            final(self).ramdisk == old(self).ramdisk && final(self).queue == old(self).queue,
    {
        if mode == CacheMode::WriteBack {
            return Err(Error::Unsupported);
        }
        self.cache_mode = mode;
        Ok(())
    }

    /// Flushes the device's cache: the persistent backend asks the device, and a
    /// write-through cache has nothing to flush.
    pub fn flush_cache<D: SectorDevice>(&self, device: &mut D) -> (r: Result<(), Error>)
        ensures
            self.backend == BackendKind::Ramdisk ==> r == (if self.cache_mode
                == CacheMode::WriteThrough {
                Ok::<(), Error>(())
            } else {
                Err(Error::Unsupported)
            }),
    {
        if self.persistent() {
            if device.flush() {
                return Ok(());
            } else {
                return Err(Error::Unsupported);
            }
        }
        match self.cache_mode {
            CacheMode::WriteThrough => Ok(()),
            CacheMode::WriteBack => Err(Error::Unsupported),
        }
    }

    pub fn stats(&self) -> (r: Stats)
        requires
            self.wf(),
        ensures
            r.geometry == (Geometry { sector_size: SECTOR_SIZE, sectors: self.data_sectors, read_only: self.read_only }),
            r.queue_capacity == QUEUE_DEPTH,
            r.completed == self.completed && r.timeouts == self.timeouts,
            r.partition_count == self.partitions@.len(),
            r.cache_mode == self.cache_mode,
            r.in_flight <= QUEUE_DEPTH,
            r.in_flight == busy_count(self.queue@, QUEUE_DEPTH as int),
            self.idle() ==> r.in_flight == 0,
    {
        let mut in_flight: usize = 0;
        let mut i: usize = 0;
        while i < self.queue.len()
            invariant
                i <= self.queue@.len(),
                self.queue@.len() == QUEUE_DEPTH,
                in_flight <= i,
                in_flight == busy_count(self.queue@, i as int),
                self.idle() ==> in_flight == 0,
            decreases self.queue@.len() - i,
        {
            if self.queue[i].state != RequestState::Free {
                in_flight = in_flight + 1;
            }
            i = i + 1;
        }
        Stats {
            geometry: self.geometry(),
            queue_capacity: QUEUE_DEPTH,
            in_flight,
            completed: self.completed,
            timeouts: self.timeouts,
            partition_count: self.partitions.len(),
            cache_mode: self.cache_mode,
        }
    }

    fn find_free(&self) -> (r: Option<usize>)
        requires
            self.queue@.len() == QUEUE_DEPTH,
        ensures
            r matches Some(i) ==> i < QUEUE_DEPTH && first_free(self.queue@, QUEUE_DEPTH as int)
                == Some(i as int),
            r is None ==> first_free(self.queue@, QUEUE_DEPTH as int) is None,
    {
        let mut i: usize = 0;
        while i < QUEUE_DEPTH
            invariant
                i <= QUEUE_DEPTH,
                self.queue@.len() == QUEUE_DEPTH,
                first_free(self.queue@, i as int) is None,
            decreases QUEUE_DEPTH - i,
        {
            if self.queue[i].state == RequestState::Free {
                proof {
                    lemma_first_free_found(self.queue@, i as int, QUEUE_DEPTH as int);
                }
                return Some(i);
            }
            i = i + 1;
        }
        None
    }

    fn submit(&mut self, operation: Operation, lba: u64, length: usize, data: Vec<u8>) -> (r: Result<
        RequestId,
        Error,
    >)
        requires
            old(self).wf(),
            operation == Operation::Write ==> data@.len() == length,
        ensures
            final(self).wf(),
            r is Err <==> submit_error(*old(self), operation, lba, length) is Some,
            r matches Err(e) ==> Some(e) == submit_error(*old(self), operation, lba, length)
                && *final(self) == *old(self),
            r matches Ok(id) ==> queued_as(*old(self), *final(self), id, operation, lba, length, data@),
    {
        if !self.ready {
            return Err(Error::NotReady);
        }
        if length == 0 || length % SECTOR_SIZE != 0 {
            return Err(Error::InvalidRequest);
        }
        if operation == Operation::Write && self.read_only {
            return Err(Error::ReadOnly);
        }
        let sectors = (length / SECTOR_SIZE) as u64;
        match lba.checked_add(sectors) {
            None => return Err(Error::OutOfRange),
            Some(end) => {
                if end > self.data_sectors {
                    return Err(Error::OutOfRange);
                }
            },
        }
        let index = match self.find_free() {
            None => return Err(Error::Busy),
            Some(index) => index,
        };
        proof {
            if self.backend == BackendKind::Ramdisk {
                lemma_request_fits(lba, length, self.data_sectors);
            }
        }
        let request = Request { state: RequestState::Queued, operation, lba, length, data, error: None };
        self.queue.set(index, request);
        assert(forall|i: int| 0 <= i < QUEUE_DEPTH && i != index ==> self.queue@[i] == old(self).queue@[i]);
        Ok(RequestId { index: index as u8 })
    }

    /// Queues a read of `length` bytes from sector `lba`.
    pub fn submit_read(&mut self, lba: u64, length: usize) -> (r: Result<RequestId, Error>)
        requires
            old(self).wf(),
        ensures
            final(self).wf(),
            r is Err <==> submit_error(*old(self), Operation::Read, lba, length) is Some,
            r matches Err(e) ==> Some(e) == submit_error(*old(self), Operation::Read, lba, length)
                && *final(self) == *old(self),
            r matches Ok(id) ==> queued_as(
                *old(self),
                *final(self),
                id,
                Operation::Read,
                lba,
                length,
                Seq::<u8>::empty(),
            ),
    {
        self.submit(Operation::Read, lba, length, Vec::new())
    }

    /// Queues a write of `input` at sector `lba`.
    pub fn submit_write(&mut self, lba: u64, input: &[u8]) -> (r: Result<RequestId, Error>)
        requires
            old(self).wf(),
        ensures
            final(self).wf(),
            r is Err <==> submit_error(*old(self), Operation::Write, lba, input@.len() as usize)
                is Some,
            r matches Err(e) ==> Some(e) == submit_error(
                *old(self),
                Operation::Write,
                lba,
                input@.len() as usize,
            ) && *final(self) == *old(self),
            r matches Ok(id) ==> queued_as(
                *old(self),
                *final(self),
                id,
                Operation::Write,
                lba,
                input@.len() as usize,
                input@,
            ),
    {
        let data = slice_to_vec(input);
        self.submit(Operation::Write, lba, input.len(), data)
    }

    /// Carries out one queued request on the ramdisk.
    fn process_ramdisk(&mut self, index: usize)
        requires
            old(self).wf(),
            index < QUEUE_DEPTH,
            old(self).backend == BackendKind::Ramdisk,
            old(self).queue@[index as int].state == RequestState::Queued,
            old(self).queue@[index as int].lba * SECTOR_SIZE + old(self).queue@[index as int].length
                <= RAMDISK_BYTES,
            old(self).queue@[index as int].operation == Operation::Write ==> old(self).queue@[index as int].data@.len() == old(self).queue@[index as int].length,
        ensures
            final(self).wf(),
            ({
                let request = old(self).queue@[index as int];
                &&& request.operation == Operation::Write ==> final(self).ramdisk@ == written(
                    old(self).ramdisk@,
                    request.lba as int,
                    request.data@,
                )
                &&& request.operation == Operation::Read ==> final(self).ramdisk@ == old(self).ramdisk@
                &&& final(self).queue@[index as int].state == RequestState::Complete
                &&& final(self).queue@[index as int].error is None
                &&& final(self).queue@[index as int].length == request.length
                &&& final(self).queue@[index as int].operation == request.operation
                &&& request.operation == Operation::Read ==> final(self).queue@[index as int].data@
                    == read_back(old(self).ramdisk@, request.lba as int, request.length as int)
            }),
            forall|i: int| 0 <= i < QUEUE_DEPTH && i != index ==> final(self).queue@[i] == old(self).queue@[i],
            final(self).ready == old(self).ready && final(self).hardware_read_only == old(self).hardware_read_only && final(self).cache_mode == old(self).cache_mode && final(self).backend == old(self).backend
                && final(self).data_sectors == old(self).data_sectors && final(self).read_only
                == old(self).read_only && final(self).completed == old(self).completed && final(self).timeouts == old(self).timeouts && final(self).partitions == old(self).partitions,
    {
        let mut request = Request::empty();
        std::mem::swap(&mut request, &mut self.queue[index]);
        let start: usize = (request.lba as usize) * SECTOR_SIZE;
        match request.operation {
            Operation::Read => {
                let slice = &self.ramdisk.as_slice()[start..start + request.length];
                request.data = slice_to_vec(slice);
            },
            Operation::Write => {
                let ghost before = self.ramdisk@;
                let mut disk: Vec<u8> = Vec::new();
                std::mem::swap(&mut disk, &mut self.ramdisk);
                let mut i: usize = 0;
                while i < request.length
                    invariant
                        i <= request.length,
                        request.data@.len() == request.length,
                        start == request.lba * SECTOR_SIZE,
                        start + request.length <= RAMDISK_BYTES,
                        disk@.len() == RAMDISK_BYTES,
                        before.len() == RAMDISK_BYTES,
                        forall|k: int| 0 <= k < i ==> disk@[start + k] == request.data@[k],
                        forall|k: int|
                            0 <= k < RAMDISK_BYTES && !(start <= k < start + i) ==> disk@[k]
                                == before[k],
                    decreases request.length - i,
                {
                    disk.set(start + i, request.data[i]);
                    i = i + 1;
                }
                assert(disk@ =~= written(before, request.lba as int, request.data@));
                self.ramdisk = disk;
            },
        }
        request.state = RequestState::Complete;
        request.error = None;
        self.queue.set(index, request);
    }

    /// Carries out one queued request on the persistent device, sector by sector.
    fn process_device<D: SectorDevice>(&mut self, device: &mut D, index: usize)
        requires
            old(self).wf(),
            index < QUEUE_DEPTH,
        ensures
            final(self).wf(),
            final(self).queue@[index as int].state == RequestState::Complete,
            final(self).queue@[index as int].length == old(self).queue@[index as int].length,
            final(self).queue@[index as int].operation == old(self).queue@[index as int].operation,
            forall|i: int| 0 <= i < QUEUE_DEPTH && i != index ==> final(self).queue@[i] == old(self).queue@[i],
            final(self).ramdisk == old(self).ramdisk,
            final(self).ready == old(self).ready && final(self).hardware_read_only == old(self).hardware_read_only && final(self).cache_mode == old(self).cache_mode && final(self).backend == old(self).backend
                && final(self).data_sectors == old(self).data_sectors && final(self).read_only
                == old(self).read_only && final(self).completed == old(self).completed && final(self).timeouts == old(self).timeouts && final(self).partitions == old(self).partitions,
    {
        let mut request = Request::empty();
        std::mem::swap(&mut request, &mut self.queue[index]);
        let sectors = request.length / SECTOR_SIZE;
        let mut error: Option<Error> = None;
        let mut data: Vec<u8> = Vec::new();
        let mut i: usize = 0;
        while i < sectors
            invariant
                i <= sectors,
            decreases sectors - i,
        {
            if request.lba > u64::MAX - (i as u64) {
                error = Some(Error::Unsupported);
                break;
            }
            let lba = request.lba + i as u64;
            match request.operation {
                Operation::Read => {
                    let mut sector = zeroes(SECTOR_SIZE);
                    if !device.read_sector(lba, &mut sector) {
                        error = Some(Error::Unsupported);
                        break;
                    }
                    data.append(&mut sector);
                },
                Operation::Write => {
                    let start = match i.checked_mul(SECTOR_SIZE) {
                        Some(start) => start,
                        None => {
                            error = Some(Error::Unsupported);
                            break;
                        },
                    };
                    let end = match start.checked_add(SECTOR_SIZE) {
                        Some(end) => end,
                        None => {
                            error = Some(Error::Unsupported);
                            break;
                        },
                    };
                    if end > request.data.len() {
                        error = Some(Error::Unsupported);
                        break;
                    }
                    let sector = &request.data.as_slice()[start..end];
                    if !device.write_sector(lba, sector) {
                        error = Some(Error::Unsupported);
                        break;
                    }
                },
            }
            i = i + 1;
        }
        if request.operation == Operation::Read {
            request.data = data;
        }
        request.state = RequestState::Complete;
        request.error = error;
        self.queue.set(index, request);
    }

    /// Carries out every queued request.
    pub fn poll<D: SectorDevice>(&mut self, device: &mut D)
        requires
            old(self).wf(),
        ensures
            final(self).wf(),
            forall|i: int| 0 <= i < QUEUE_DEPTH ==> (#[trigger] final(self).queue@[i]).state
                != RequestState::Queued,
            forall|i: int|
                0 <= i < QUEUE_DEPTH && old(self).queue@[i].state != RequestState::Queued
                    ==> #[trigger] final(self).queue@[i] == old(self).queue@[i],
            final(self).ready == old(self).ready && final(self).hardware_read_only == old(self).hardware_read_only && final(self).cache_mode == old(self).cache_mode && final(self).backend == old(self).backend
                && final(self).data_sectors == old(self).data_sectors && final(self).read_only
                == old(self).read_only && final(self).partitions == old(self).partitions,
            forall|j: int|
                0 <= j < QUEUE_DEPTH && old(self).backend == BackendKind::Ramdisk && only_queued(
                    old(self).queue@,
                    j,
                ) ==> #[trigger] completed_alone(old(self).ramdisk@, old(self).queue@[j], final(self).ramdisk@, final(self).queue@[j]),
    {
        let mut index: usize = 0;
        while index < QUEUE_DEPTH
            invariant
                self.wf(),
                old(self).wf(),
                index <= QUEUE_DEPTH,
                self.ready == old(self).ready && self.hardware_read_only == old(self).hardware_read_only && self.cache_mode == old(self).cache_mode && self.backend == old(self).backend
                    && self.data_sectors == old(self).data_sectors && self.read_only == old(self).read_only && self.partitions == old(self).partitions,
                forall|i: int| 0 <= i < index ==> (#[trigger] self.queue@[i]).state
                    != RequestState::Queued,
                forall|i: int| index <= i < QUEUE_DEPTH ==> #[trigger] self.queue@[i] == old(self).queue@[i],
                forall|j: int|
                    0 <= j < index && old(self).backend == BackendKind::Ramdisk && only_queued(
                        old(self).queue@,
                        j,
                    ) ==> #[trigger] completed_alone(
                        old(self).ramdisk@,
                        old(self).queue@[j],
                        self.ramdisk@,
                        self.queue@[j],
                    ),
                forall|j: int|
                    index <= j < QUEUE_DEPTH && old(self).backend == BackendKind::Ramdisk
                        && #[trigger] only_queued(old(self).queue@, j) ==> self.ramdisk@ == old(self).ramdisk@,
                forall|i: int|
                    0 <= i < index && old(self).queue@[i].state != RequestState::Queued
                        ==> #[trigger] self.queue@[i] == old(self).queue@[i],
            decreases QUEUE_DEPTH - index,
        {
            let ghost disk0 = self.ramdisk@;
            let ghost queue0 = self.queue@;
            if self.queue[index].state == RequestState::Queued {
                assert(request_fits(self.queue@[index as int], self.backend));
                match self.backend {
                    BackendKind::Ramdisk => self.process_ramdisk(index),
                    BackendKind::VirtioBlk => self.process_device(device, index),
                }
                self.completed = self.completed.saturating_add(1);
            }
            proof {
                assert forall|j: int|
                    0 <= j < index + 1 && old(self).backend == BackendKind::Ramdisk && only_queued(
                        old(self).queue@,
                        j,
                    ) implies completed_alone(
                    old(self).ramdisk@,
                    old(self).queue@[j],
                    self.ramdisk@,
                    self.queue@[j],
                ) by {
                    if j < index {
                        assert(index != j);
                        assert(old(self).queue@[index as int].state != RequestState::Queued);
                        assert(completed_alone(old(self).ramdisk@, old(self).queue@[j], disk0, queue0[j]));
                    } else {
                        assert(only_queued(old(self).queue@, j));
                        assert(disk0 == old(self).ramdisk@);
                    }
                }
                assert forall|j: int|
                    index + 1 <= j < QUEUE_DEPTH && old(self).backend == BackendKind::Ramdisk
                        && only_queued(old(self).queue@, j) implies self.ramdisk@ == old(self).ramdisk@ by {
                    assert(old(self).queue@[index as int].state != RequestState::Queued);
                    assert(only_queued(old(self).queue@, j));
                }
            }
            index = index + 1;
        }
        assert forall|j: int|
            0 <= j < QUEUE_DEPTH && old(self).backend == BackendKind::Ramdisk && only_queued(
                old(self).queue@,
                j,
            ) implies completed_alone(
            old(self).ramdisk@,
            old(self).queue@[j],
            self.ramdisk@,
            self.queue@[j],
        ) by {
            let q = self.queue@[j];
        }
    }

    /// Waits for request `id`: returns its length, or its error, and frees its slot;
    /// a completed read's bytes go to `output`.
    pub fn wait<D: SectorDevice>(&mut self, device: &mut D, id: RequestId, output: &mut Vec<u8>) -> (r:
        Result<usize, Error>)
        requires
            old(self).wf(),
        ensures
            final(self).wf(),
            id.index >= QUEUE_DEPTH ==> r == Err::<usize, Error>(Error::InvalidRequest),
            id.index < QUEUE_DEPTH && old(self).queue@[id.index as int].state == RequestState::Free
                ==> r == Err::<usize, Error>(Error::InvalidRequest),
            final(self).ready == old(self).ready && final(self).hardware_read_only == old(self).hardware_read_only && final(self).cache_mode == old(self).cache_mode && final(self).backend == old(self).backend
                && final(self).data_sectors == old(self).data_sectors && final(self).read_only
                == old(self).read_only && final(self).partitions == old(self).partitions,
            id.index < QUEUE_DEPTH && old(self).backend == BackendKind::Ramdisk && old(self).queue@[id.index as int].state == RequestState::Queued && only_queued(
                old(self).queue@,
                id.index as int,
            ) ==> {
                let request = old(self).queue@[id.index as int];
                &&& r == Ok::<usize, Error>(request.length)
                &&& request.operation == Operation::Write ==> final(self).ramdisk@ == written(
                    old(self).ramdisk@,
                    request.lba as int,
                    request.data@,
                ) && final(output)@ == old(output)@
                &&& request.operation == Operation::Read ==> final(self).ramdisk@ == old(self).ramdisk@ && final(output)@ == read_back(
                    old(self).ramdisk@,
                    request.lba as int,
                    request.length as int,
                )
                &&& final(self).queue@[id.index as int].state == RequestState::Free
                &&& forall|i: int| 0 <= i < QUEUE_DEPTH && i != id.index ==> #[trigger] final(self).queue@[i] == old(self).queue@[i]
            },
    {
        let index = id.index as usize;
        if index >= QUEUE_DEPTH {
            return Err(Error::InvalidRequest);
        }
        if self.queue[index].state == RequestState::Free {
            return Err(Error::InvalidRequest);
        }
        self.poll(device);
        proof {
            let j = index as int;
            if old(self).backend == BackendKind::Ramdisk && only_queued(old(self).queue@, j) {
                assert(completed_alone(old(self).ramdisk@, old(self).queue@[j], self.ramdisk@, self.queue@[j]));
            }
        }
        let mut request = Request::empty();
        std::mem::swap(&mut request, &mut self.queue[index]);
        match request.error {
            Some(error) => Err(error),
            None => {
                if request.operation == Operation::Read {
                    *output = request.data;
                }
                Ok(request.length)
            },
        }
    }
}


proof fn lemma_request_fits(lba: u64, length: usize, sectors: u64)
    requires
        length % SECTOR_SIZE == 0,
        lba + length / SECTOR_SIZE <= sectors,
        sectors <= RAMDISK_SECTORS,
    ensures
        lba * SECTOR_SIZE + length <= RAMDISK_BYTES,
{
    assert(length == (length / SECTOR_SIZE) * SECTOR_SIZE);
    assert((lba + length / SECTOR_SIZE) * SECTOR_SIZE <= RAMDISK_SECTORS * SECTOR_SIZE) by (nonlinear_arith)
        requires
            lba + length / SECTOR_SIZE <= RAMDISK_SECTORS,
    ;
}

impl BlockLayer {
    /// Reads `output.len()` bytes from sector `lba` into `output`.
    pub fn read_sectors<D: SectorDevice>(&mut self, device: &mut D, lba: u64, output: &mut Vec<u8>) -> (r:
        Result<usize, Error>)
        requires
            old(self).wf(),
        ensures
            final(self).wf(),
            final(self).ready == old(self).ready && final(self).hardware_read_only == old(self).hardware_read_only && final(self).cache_mode == old(self).cache_mode && final(self).backend == old(self).backend
                && final(self).data_sectors == old(self).data_sectors && final(self).read_only
                == old(self).read_only && final(self).partitions == old(self).partitions,
            old(self).backend == BackendKind::Ramdisk && old(self).idle() ==> match submit_error(
                *old(self),
                Operation::Read,
                lba,
                old(output)@.len() as usize,
            ) {
                Some(e) => r == Err::<usize, Error>(e) && final(output)@ == old(output)@
                    && final(self).ramdisk@ == old(self).ramdisk@ && final(self).idle(),
                None => r == Ok::<usize, Error>(old(output)@.len() as usize) && final(output)@
                    == read_back(old(self).ramdisk@, lba as int, old(output)@.len() as int)
                    && final(self).ramdisk@ == old(self).ramdisk@ && final(self).idle(),
            },
    {
        let length = output.len();
        let id = match self.submit_read(lba, length) {
            Err(e) => return Err(e),
            Ok(id) => id,
        };
        let ghost queued = *self;
        proof {
            if old(self).backend == BackendKind::Ramdisk && old(self).idle() {
                assert(only_queued(self.queue@, id.index as int));
            }
        }
        let r = self.wait(device, id, output);
        proof {
            if old(self).backend == BackendKind::Ramdisk && old(self).idle() {
                assert forall|i: int| 0 <= i < self.queue@.len() implies (#[trigger] self.queue@[i]).state
                    == RequestState::Free by {
                    if i != id.index {
                        assert(self.queue@[i] == queued.queue@[i]);
                        assert(queued.queue@[i] == old(self).queue@[i]);
                    }
                }
            }
        }
        r
    }

    /// Writes `input` at sector `lba`.
    pub fn write_sectors<D: SectorDevice>(&mut self, device: &mut D, lba: u64, input: &[u8]) -> (r:
        Result<usize, Error>)
        requires
            old(self).wf(),
        ensures
            final(self).wf(),
            final(self).ready == old(self).ready && final(self).hardware_read_only == old(self).hardware_read_only && final(self).cache_mode == old(self).cache_mode && final(self).backend == old(self).backend
                && final(self).data_sectors == old(self).data_sectors && final(self).read_only
                == old(self).read_only && final(self).partitions == old(self).partitions,
            old(self).backend == BackendKind::Ramdisk && old(self).idle() ==> match submit_error(
                *old(self),
                Operation::Write,
                lba,
                input@.len() as usize,
            ) {
                Some(e) => r == Err::<usize, Error>(e) && final(self).ramdisk@ == old(self).ramdisk@
                    && final(self).idle(),
                None => r == Ok::<usize, Error>(input@.len() as usize) && final(self).ramdisk@
                    == written(old(self).ramdisk@, lba as int, input@) && final(self).idle(),
            },
    {
        let id = match self.submit_write(lba, input) {
            Err(e) => return Err(e),
            Ok(id) => id,
        };
        let ghost queued = *self;
        proof {
            if old(self).backend == BackendKind::Ramdisk && old(self).idle() {
                assert(only_queued(self.queue@, id.index as int));
            }
        }
        let mut unused: Vec<u8> = Vec::new();
        let r = self.wait(device, id, &mut unused);
        proof {
            if old(self).backend == BackendKind::Ramdisk && old(self).idle() {
                assert forall|i: int| 0 <= i < self.queue@.len() implies (#[trigger] self.queue@[i]).state
                    == RequestState::Free by {
                    if i != id.index {
                        assert(self.queue@[i] == queued.queue@[i]);
                        assert(queued.queue@[i] == old(self).queue@[i]);
                    }
                }
            }
        }
        r
    }
}


/// The ramdisk's first contents: each byte its offset's low byte, then an MBR with
/// one partition of type 0xda from sector 1 to the end.
pub fn ramdisk_image() -> (r: Vec<u8>)
    ensures
        r@.len() == RAMDISK_BYTES,
        r@[510] == 0x55 && r@[511] == 0xaa,
        r@[450] == 0xda,
        spec_le_u32(r@, 454) == 1,
        spec_le_u32(r@, 458) == RAMDISK_SECTORS - 1,
{
    let mut disk: Vec<u8> = Vec::new();
    let mut i: usize = 0;
    while i < RAMDISK_BYTES
        invariant
            i <= RAMDISK_BYTES,
            disk@.len() == i,
        decreases RAMDISK_BYTES - i,
    {
        disk.push((i % 256) as u8);
        i = i + 1;
    }
    disk.set(446 + 4, 0xda);
    crate::bytes::put_u32(&mut disk, 446 + 8, 1);
    crate::bytes::put_u32(&mut disk, 446 + 12, (RAMDISK_SECTORS - 1) as u32);
    disk.set(510, 0x55);
    disk.set(511, 0xaa);
    disk
}

impl BlockLayer {
    /// A ready block layer on the ramdisk, or on a virtio disk of the given size and
    /// write protection; no partitions are known yet.
    pub fn new(virtio: Option<(u64, bool)>) -> (r: Self)
        ensures
            r.wf(),
            r.idle(),
            r.ready,
            r.partitions@.len() == 0,
            r.completed == 0 && r.timeouts == 0,
            r.cache_mode == CacheMode::WriteThrough,
            virtio is None ==> r.backend == BackendKind::Ramdisk && r.data_sectors
                == RAMDISK_SECTORS && !r.read_only && !r.hardware_read_only,
            r.ramdisk@[510] == 0x55 && r.ramdisk@[511] == 0xaa && r.ramdisk@[450] == 0xda,
            spec_le_u32(r.ramdisk@, 454) == 1,
            spec_le_u32(r.ramdisk@, 458) == RAMDISK_SECTORS - 1,
            virtio matches Some((sectors, read_only)) ==> r.backend == BackendKind::VirtioBlk
                && r.data_sectors == sectors && r.read_only == read_only && r.hardware_read_only
                == read_only,
    {
        let mut queue: Vec<Request> = Vec::new();
        let mut i: usize = 0;
        while i < QUEUE_DEPTH
            invariant
                i <= QUEUE_DEPTH,
                queue@.len() == i,
                forall|k: int| 0 <= k < i ==> (#[trigger] queue@[k]).state == RequestState::Free,
            decreases QUEUE_DEPTH - i,
        {
            queue.push(Request::empty());
            i = i + 1;
        }
        let ramdisk = ramdisk_image();
        let (backend, data_sectors, read_only) = match virtio {
            None => (BackendKind::Ramdisk, RAMDISK_SECTORS as u64, false),
            Some((sectors, read_only)) => (BackendKind::VirtioBlk, sectors, read_only),
        };
        let layer = BlockLayer {
            ready: true,
            read_only,
            hardware_read_only: read_only,
            backend,
            data_sectors,
            cache_mode: CacheMode::WriteThrough,
            completed: 0,
            timeouts: 0,
            queue,
            partitions: Vec::new(),
            ramdisk,
        };
        layer
    }
}


/// Two byte strings are equal.
pub fn bytes_equal(a: &[u8], b: &[u8]) -> (r: bool)
    ensures
        r == (a@ == b@),
{
    if a.len() != b.len() {
        return false;
    }
    let mut i: usize = 0;
    while i < a.len()
        invariant
            i <= a@.len(),
            a@.len() == b@.len(),
            forall|k: int| 0 <= k < i ==> a@[k] == b@[k],
        decreases a@.len() - i,
    {
        if a[i] != b[i] {
            return false;
        }
        i = i + 1;
    }
    assert(a@ == b@);
    true
}

impl BlockLayer {
    /// Reads one sector into `output`.
    pub fn read_sector<D: SectorDevice>(&mut self, device: &mut D, lba: u64, output: &mut Vec<u8>) -> (r: bool)
        requires
            old(self).wf(),
            old(output)@.len() == SECTOR_SIZE,
        ensures
            final(self).wf(),
            final(self).ready == old(self).ready && final(self).hardware_read_only == old(self).hardware_read_only && final(self).cache_mode == old(self).cache_mode && final(self).backend == old(self).backend
                && final(self).data_sectors == old(self).data_sectors && final(self).read_only
                == old(self).read_only && final(self).partitions == old(self).partitions,
            old(self).backend == BackendKind::Ramdisk && old(self).idle() ==> {
                &&& r == (submit_error(*old(self), Operation::Read, lba, SECTOR_SIZE) is None)
                &&& r ==> final(output)@ == read_back(old(self).ramdisk@, lba as int, SECTOR_SIZE as int)
                &&& !r ==> final(output)@ == old(output)@
                &&& final(self).ramdisk@ == old(self).ramdisk@ && final(self).idle()
            },
    {
        self.read_sectors(device, lba, output).is_ok()
    }

    /// Writes one sector.
    pub fn write_sector<D: SectorDevice>(&mut self, device: &mut D, lba: u64, input: &[u8]) -> (r: bool)
        requires
            old(self).wf(),
            input@.len() == SECTOR_SIZE,
        ensures
            final(self).wf(),
            final(self).ready == old(self).ready && final(self).hardware_read_only == old(self).hardware_read_only && final(self).cache_mode == old(self).cache_mode && final(self).backend == old(self).backend
                && final(self).data_sectors == old(self).data_sectors && final(self).read_only
                == old(self).read_only && final(self).partitions == old(self).partitions,
            old(self).backend == BackendKind::Ramdisk && old(self).idle() ==> {
                &&& r == (submit_error(*old(self), Operation::Write, lba, SECTOR_SIZE) is None)
                &&& r ==> final(self).ramdisk@ == written(old(self).ramdisk@, lba as int, input@)
                &&& !r ==> final(self).ramdisk@ == old(self).ramdisk@
                &&& final(self).idle()
            },
    {
        self.write_sectors(device, lba, input).is_ok()
    }

    /// Writes a pattern to the last sector, checks that a read-only device refuses
    /// it and that it reads back, and restores the sector.
    pub fn smoke_test<D: SectorDevice>(&mut self, device: &mut D) -> (r: bool)
        requires
            old(self).wf(),
            old(self).data_sectors >= 1,
        ensures
            final(self).wf(),
            old(self).backend == BackendKind::Ramdisk && old(self).idle() && old(self).ready && !old(self).read_only && !old(self).hardware_read_only ==> r && final(self).ramdisk@ == old(self).ramdisk@,
            old(self).backend == BackendKind::Ramdisk && old(self).idle() && !old(self).ready ==> !r
                && final(self).ramdisk@ == old(self).ramdisk@,
            old(self).backend == BackendKind::Ramdisk && old(self).idle() && old(self).ready && old(self).read_only ==> r
                && final(self).ramdisk@ == old(self).ramdisk@,
    {
        let lba = self.data_sectors - 1;
        proof {
            if self.backend == BackendKind::Ramdisk && self.idle() {
                lemma_idle_has_free(self.queue@);
            }
        }
        let mut original = zeroes(SECTOR_SIZE);
        let pattern = vec_of(0xa5, SECTOR_SIZE);
        if !self.read_sector(device, lba, &mut original) {
            return false;
        }
        if self.read_only {
            return true;
        }
        self.set_read_only(true);
        let rejected = match self.submit_write(lba, pattern.as_slice()) {
            Err(Error::ReadOnly) => true,
            _ => false,
        };
        self.set_read_only(false);
        proof {
            if old(self).backend == BackendKind::Ramdisk && old(self).idle() {
                lemma_idle_has_free(self.queue@);
            }
        }
        if !rejected || !self.write_sector(device, lba, pattern.as_slice()) {
            return false;
        }
        let mut round_trip = zeroes(SECTOR_SIZE);
        proof {
            if old(self).backend == BackendKind::Ramdisk && old(self).idle() {
                lemma_idle_has_free(self.queue@);
            }
        }
        let passed = self.read_sector(device, lba, &mut round_trip) && bytes_equal(
            round_trip.as_slice(),
            pattern.as_slice(),
        );
        proof {
            if old(self).backend == BackendKind::Ramdisk && old(self).idle() {
                lemma_request_fits(lba, SECTOR_SIZE, old(self).data_sectors);
                law_read_after_write(old(self).ramdisk@, lba as int, pattern@);
            }
        }
        if original.len() != SECTOR_SIZE {
            return false;
        }
        proof {
            if old(self).backend == BackendKind::Ramdisk && old(self).idle() {
                lemma_idle_has_free(self.queue@);
            }
        }
        let restored = self.write_sector(device, lba, original.as_slice());
        proof {
            if old(self).backend == BackendKind::Ramdisk && old(self).idle() {
                assert(self.ramdisk@ =~= old(self).ramdisk@);
            }
        }
        passed && restored
    }
}

/// `len` copies of `byte`.
pub fn vec_of(byte: u8, len: usize) -> (r: Vec<u8>)
    ensures
        r@.len() == len,
        forall|i: int| 0 <= i < len ==> r@[i] == byte,
{
    let mut out: Vec<u8> = Vec::new();
    let mut i: usize = 0;
    while i < len
        invariant
            i <= len,
            out@.len() == i,
            forall|k: int| 0 <= k < i ==> out@[k] == byte,
        decreases len - i,
    {
        out.push(byte);
        i = i + 1;
    }
    out
}


/// The usable partition entry `index` of an MBR sector: a non-zero type and size,
/// inside a disk of `data_sectors` sectors.
pub open spec fn mbr_entry(sector: Seq<u8>, index: int, data_sectors: u64) -> Option<Partition> {
    let offset = 446 + index * 16;
    let type_code = sector[offset + 4];
    let start = spec_le_u32(sector, offset + 8);
    let sectors = spec_le_u32(sector, offset + 12);
    if type_code == 0 || sectors == 0 || start >= data_sectors || sectors > data_sectors - start {
        None
    } else {
        Some(Partition { index: index as u8, type_code, start_lba: start as u64, sectors: sectors as u64 })
    }
}

/// The usable entries among the first `n` of a signed MBR, in order.
pub open spec fn mbr_partitions(sector: Seq<u8>, n: int, data_sectors: u64) -> Seq<Partition>
    decreases n,
{
    if n <= 0 {
        Seq::empty()
    } else {
        let earlier = mbr_partitions(sector, n - 1, data_sectors);
        match mbr_entry(sector, n - 1, data_sectors) {
            Some(p) => earlier.push(p),
            None => earlier,
        }
    }
}

proof fn lemma_mbr_partitions_len(sector: Seq<u8>, n: int, data_sectors: u64)
    requires
        n >= 0,
    ensures
        mbr_partitions(sector, n, data_sectors).len() <= n,
    decreases n,
{
    if n > 0 {
        lemma_mbr_partitions_len(sector, n - 1, data_sectors);
    }
}

/// The partitions a first sector describes: the usable entries of a signed MBR, or
/// else the whole disk.
pub open spec fn partitions_of(sector: Seq<u8>, data_sectors: u64) -> Seq<Partition> {
    let found = if sector[510] == 0x55 && sector[511] == 0xaa {
        mbr_partitions(sector, MAX_PARTITIONS as int, data_sectors)
    } else {
        Seq::empty()
    };
    if found.len() == 0 {
        seq![Partition { index: 0, type_code: 0, start_lba: 0, sectors: data_sectors }]
    } else {
        found
    }
}

/// The partitions the first sector `sector` describes.
pub fn parse_partitions(sector: &[u8], data_sectors: u64) -> (r: Vec<Partition>)
    requires
        sector@.len() == SECTOR_SIZE,
    ensures
        r@ == partitions_of(sector@, data_sectors),
        1 <= r@.len() <= MAX_PARTITIONS,
{
    let mut found: Vec<Partition> = Vec::new();
    if sector[510] == 0x55 && sector[511] == 0xaa {
        let mut index: usize = 0;
        while index < MAX_PARTITIONS
            invariant
                index <= MAX_PARTITIONS,
                sector@.len() == SECTOR_SIZE,
                found@ == mbr_partitions(sector@, index as int, data_sectors),
            decreases MAX_PARTITIONS - index,
        {
            let offset = 446 + index * 16;
            let type_code = sector[offset + 4];
            let start_lba = mbr_u32(sector, offset + 8) as u64;
            let sectors = mbr_u32(sector, offset + 12) as u64;
            if !(type_code == 0 || sectors == 0 || start_lba >= data_sectors || sectors > data_sectors
                - start_lba) {
                found.push(Partition { index: index as u8, type_code, start_lba, sectors });
            }
            index = index + 1;
        }
        proof {
            lemma_mbr_partitions_len(sector@, MAX_PARTITIONS as int, data_sectors);
        }
    }
    if found.len() == 0 {
        let mut whole: Vec<Partition> = Vec::new();
        whole.push(Partition { index: 0, type_code: 0, start_lba: 0, sectors: data_sectors });
        return whole;
    }
    found
}

impl BlockLayer {
    /// Reads the first sector and records the partitions it describes.
    pub fn discover_partitions<D: SectorDevice>(&mut self, device: &mut D) -> (r: bool)
        requires
            old(self).wf(),
        ensures
            final(self).wf(),
            final(self).backend == old(self).backend && final(self).data_sectors == old(self).data_sectors,
            final(self).ready == old(self).ready && final(self).read_only == old(self).read_only
                && final(self).hardware_read_only == old(self).hardware_read_only,
            old(self).backend == BackendKind::Ramdisk && old(self).idle() ==> final(self).idle()
                && final(self).ramdisk@ == old(self).ramdisk@ && (r == (submit_error(
                *old(self),
                Operation::Read,
                0,
                SECTOR_SIZE,
            ) is None)) && (r ==> final(self).partitions@ == partitions_of(
                read_back(old(self).ramdisk@, 0, SECTOR_SIZE as int),
                old(self).data_sectors,
            )),
    {
        let mut sector = zeroes(SECTOR_SIZE);
        if !self.read_sector(device, 0, &mut sector) {
            return false;
        }
        if sector.len() != SECTOR_SIZE {
            return false;
        }
        self.partitions = parse_partitions(sector.as_slice(), self.data_sectors);
        true
    }

    /// Finds the partitions and runs the smoke test: the ramdisk's round trip, or a
    /// read of the first sector of a virtio disk.
    pub fn init<D: SectorDevice>(&mut self, device: &mut D) -> (r: bool)
        requires
            old(self).wf(),
            old(self).data_sectors >= 1,
        ensures
            final(self).wf(),
            old(self).backend == BackendKind::Ramdisk && old(self).idle() && !old(self).ready ==> !r
                && final(self).ramdisk@ == old(self).ramdisk@,
            old(self).backend == BackendKind::Ramdisk && old(self).idle() && old(self).ready && (old(self).read_only
                || !old(self).hardware_read_only) ==> r && final(self).ramdisk@ == old(self).ramdisk@,
    {
        proof {
            if old(self).backend == BackendKind::Ramdisk && old(self).idle() {
                lemma_idle_has_free(self.queue@);
            }
        }
        if !self.discover_partitions(device) {
            return false;
        }
        match self.backend {
            BackendKind::Ramdisk => self.smoke_test(device),
            BackendKind::VirtioBlk => {
                let mut sector = zeroes(SECTOR_SIZE);
                self.read_sector(device, 0, &mut sector)
            },
        }
    }
}

/// Checks the sector size, the queue depth, MBR decoding, and that a layer not yet
/// ready refuses requests and write-back caching.
pub fn contract_self_check() {
    assert(SECTOR_SIZE == 512);
    let pow = crate::address::is_power_of_two(QUEUE_DEPTH as u64);
    assert(pow) by {
        reveal_with_fuel(crate::address::is_pow2, 5);
    }
    let bytes: [u8; 4] = [1, 2, 3, 4];
    let value = mbr_u32(&bytes, 0);
    assert(value == 0x0403_0201);
    let mut layer = BlockLayer::new(None);
    layer.ready = false;
    let refused = layer.submit_read(0, SECTOR_SIZE);
    assert(refused == Err::<RequestId, Error>(Error::NotReady));
    let cache = layer.set_cache_mode(CacheMode::WriteBack);
    assert(cache == Err::<(), Error>(Error::Unsupported));
}

} // verus!
