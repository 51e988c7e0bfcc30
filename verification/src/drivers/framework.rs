use vstd::prelude::*;
use crate::address::{PhysAddr, VirtAddr};

verus! {

pub const MAX_DRIVERS: usize = 32;
pub const MAX_DEVICES_PER_BUS: usize = 16;
pub const MAX_RESOURCES: usize = 8;
pub const MAX_TRACE_EVENTS: usize = 128;

pub type BusId = u16;
pub type DeviceId = u16;
pub type DriverId = u16;

#[derive(Clone, Copy, Debug, PartialEq, Eq, Structural)]
pub enum BusKind {
    Platform,
    Pci,
    Virtio,
    Usb,
    Ps2,
}

#[derive(Clone, Copy, Debug, PartialEq, Eq, Structural)]
pub enum Class {
    Display,
    Serial,
    Block,
    Input,
    UsbHost,
    Audio,
    Network,
}

#[derive(Clone, Copy, Debug, PartialEq, Eq, Structural)]
pub enum DriverStage {
    Early,
    Runtime,
}

#[derive(Clone, Copy, Debug, PartialEq, Eq, Structural)]
pub enum DeviceState {
    Discovered,
    Probing,
    Ready,
    Suspended,
    Deferred,
    Unsupported,
    Busy,
    Quiescing,
    Removed,
    Failed,
}

#[derive(Clone, Copy, Debug, PartialEq, Eq, Structural)]
pub enum IrqKind {
    Legacy,
    Msi,
    MsiX,
    Gic,
}

#[derive(Clone, Copy, Debug, PartialEq, Eq, Structural)]
pub enum DmaDirection {
    ToDevice,
    FromDevice,
    Bidirectional,
}

#[derive(Clone, Copy, Debug, PartialEq, Eq, Structural)]
pub struct Irq {
    pub kind: IrqKind,
    pub line: u32,
    pub owner: DeviceId,
}

#[derive(Clone, Copy, Debug, PartialEq, Eq, Structural)]
pub struct DmaBuffer {
    pub physical: PhysAddr,
    pub virtual_address: VirtAddr,
    pub length: usize,
    pub alignment: usize,
    pub direction: DmaDirection,
    pub owner: DeviceId,
}

#[derive(Clone, Copy, Debug, PartialEq, Eq, Structural)]
pub enum DriverError {
    InvalidState { expected: DeviceState, actual: DeviceState },
    BusCapacity,
    ResourceCapacity,
    ResourceOwnerMismatch,
    DriverAlreadyBound,
    DriverNotBound,
    Unsupported,
    Deferred,
    Busy,
    Timeout,
    ProbeFailed,
    RemoveFailed,
    NotMatched,
    NotPublished,
    InvalidResourceRange,
    InvalidAlignment,
    InvalidAddressRange,
    InvalidDmaDirection,
    DeviceAbsent,
    MalformedDescriptor,
    DmaFailure,
    InterruptStorm,
}

/// What `DmaBuffer::validate` decides.
pub open spec fn dma_check(buffer: DmaBuffer) -> Result<(), DriverError> {
    if buffer.length == 0 || !crate::address::is_pow2(buffer.alignment as int)
        || (buffer.physical.0 as int) % (buffer.alignment as int) != 0
        || (buffer.virtual_address.0 as int) % (buffer.alignment as int) != 0 {
        Err(DriverError::InvalidAlignment)
    } else if buffer.physical.0 + buffer.length > u64::MAX || buffer.virtual_address.0
        + buffer.length > usize::MAX {
        Err(DriverError::InvalidAddressRange)
    } else {
        Ok(())
    }
}

impl DmaBuffer {
    /// A non-empty buffer, aligned on both sides to a power of two, whose ranges
    /// do not wrap.
    pub fn validate(self) -> (r: Result<(), DriverError>)
        ensures
            r == dma_check(self),
    {
        if self.length == 0 || !crate::address::is_power_of_two(self.alignment as u64)
            || !self.physical.is_aligned(self.alignment) || !self.virtual_address.is_aligned(
            self.alignment,
        ) {
            return Err(DriverError::InvalidAlignment);
        }
        if self.physical.checked_add(self.length).is_none() || self.virtual_address.checked_add(
            self.length,
        ).is_none() {
            return Err(DriverError::InvalidAddressRange);
        }
        Ok(())
    }

    /// The checks made before handing the buffer to the device: valid, and a
    /// direction the device reads.
    pub fn check_for_device(self) -> (r: Result<(), DriverError>)
        ensures
            dma_check(self) is Err ==> r == dma_check(self),
            dma_check(self) is Ok ==> r == (if self.direction == DmaDirection::FromDevice {
                Err(DriverError::InvalidDmaDirection)
            } else {
                Ok(())
            }),
    {
        match self.validate() {
            Err(e) => return Err(e),
            Ok(()) => {},
        }
        if !(self.direction == DmaDirection::ToDevice || self.direction
            == DmaDirection::Bidirectional) {
            return Err(DriverError::InvalidDmaDirection);
        }
        Ok(())
    }

    /// The checks made before the CPU reads the buffer: valid, and a direction the
    /// device writes.
    pub fn check_for_cpu(self) -> (r: Result<(), DriverError>)
        ensures
            dma_check(self) is Err ==> r == dma_check(self),
            dma_check(self) is Ok ==> r == (if self.direction == DmaDirection::ToDevice {
                Err(DriverError::InvalidDmaDirection)
            } else {
                Ok(())
            }),
    {
        match self.validate() {
            Err(e) => return Err(e),
            Ok(()) => {},
        }
        if !(self.direction == DmaDirection::FromDevice || self.direction
            == DmaDirection::Bidirectional) {
            return Err(DriverError::InvalidDmaDirection);
        }
        Ok(())
    }
}

#[derive(Clone, Copy, Debug, PartialEq, Eq, Structural)]
pub enum Resource {
    Mmio { base: u64, size: u64, owner: DeviceId },
    Pio { base: u16, size: u16, owner: DeviceId },
    Irq(Irq),
    Dma(DmaBuffer),
}

pub open spec fn resource_owner(resource: Resource) -> DeviceId {
    match resource {
        Resource::Mmio { owner, .. } => owner,
        Resource::Pio { owner, .. } => owner,
        Resource::Irq(irq) => irq.owner,
        Resource::Dma(buffer) => buffer.owner,
    }
}

/// What `Resource::validate` decides.
pub open spec fn resource_check(resource: Resource) -> Result<(), DriverError> {
    match resource {
        Resource::Mmio { base, size, .. } => if size == 0 || base + size > u64::MAX {
            Err(DriverError::InvalidResourceRange)
        } else {
            Ok(())
        },
        Resource::Pio { base, size, .. } => if size == 0 || base + size > 0x1_0000 {
            Err(DriverError::InvalidResourceRange)
        } else {
            Ok(())
        },
        Resource::Dma(buffer) => dma_check(buffer),
        Resource::Irq(_) => Ok(()),
    }
}

impl Resource {
    pub fn owner(self) -> (r: DeviceId)
        ensures
            r == resource_owner(self),
    {
        match self {
            Resource::Mmio { owner, .. } => owner,
            Resource::Pio { owner, .. } => owner,
            Resource::Irq(irq) => irq.owner,
            Resource::Dma(buffer) => buffer.owner,
        }
    }

    /// Non-empty, non-wrapping ranges; port ranges stay inside the 64 KiB port space.
    pub fn validate(self) -> (r: Result<(), DriverError>)
        ensures
            r == resource_check(self),
    {
        match self {
            Resource::Mmio { base, size, .. } => {
                if size == 0 || base.checked_add(size).is_none() {
                    return Err(DriverError::InvalidResourceRange);
                }
            },
            Resource::Pio { base, size, .. } => {
                if size == 0 || base as u32 + size as u32 > 0x1_0000 {
                    return Err(DriverError::InvalidResourceRange);
                }
            },
            Resource::Dma(buffer) => {
                return buffer.validate();
            },
            Resource::Irq(_) => {},
        }
        Ok(())
    }
}


#[derive(Clone, Copy, Debug, PartialEq, Eq, Structural)]
pub enum TraceOp {
    Discover,
    Match,
    Probe,
    Publish,
    Suspend,
    Resume,
    Quiesce,
    Remove,
    Revoke,
    HotUnplug,
    Rebind,
    ResourceAdd,
    ResourceRelease,
}

#[derive(Clone, Copy, Debug, PartialEq, Eq, Structural)]
pub struct TraceEvent {
    pub sequence: u64,
    pub operation: TraceOp,
    pub device: DeviceId,
    pub driver: Option<DriverId>,
    pub state: DeviceState,
    pub resources: usize,
    pub irqs: usize,
    pub dmas: usize,
    pub success: bool,
}

/// The lifecycle log: the last `MAX_TRACE_EVENTS` events, in the order they were
/// recorded, kept in a ring.
pub struct Trace {
    events: Vec<Option<TraceEvent>>,
    next: u64,
    len: usize,
    log: Ghost<Seq<TraceEvent>>,
}

/// Where the `i`th retained event sits in the ring.
pub open spec fn ring_slot(next: u64, len: usize, i: int) -> int {
    (next - len + i) % (MAX_TRACE_EVENTS as int)
}

/// The log after one more event: appended, and the oldest dropped once the ring is
/// full; once the sequence counter has saturated, each new event overwrites the
/// slot that reads back first.
pub open spec fn logged(log: Seq<TraceEvent>, next: u64, event: TraceEvent) -> Seq<TraceEvent> {
    if next == u64::MAX {
        log.update(0, event)
    } else if log.len() < MAX_TRACE_EVENTS {
        log.push(event)
    } else {
        log.drop_first().push(event)
    }
}

proof fn lemma_ring_shift(next: u64, i: int)
    requires
        MAX_TRACE_EVENTS <= next < u64::MAX,
        0 <= i < MAX_TRACE_EVENTS,
    ensures
        ((next + 1) - MAX_TRACE_EVENTS + i) % 128 == (next - MAX_TRACE_EVENTS + (i + 1)) % 128,
        (next + 1 - MAX_TRACE_EVENTS + 127) % 128 == next % 128,
        i < 127 ==> (next - MAX_TRACE_EVENTS + (i + 1)) % 128 != next % 128,
{
    let a: int = next - 128;
    assert((a + 1 + i) % 128 == (a + (i + 1)) % 128);
    assert((a + 128) % 128 == a % 128) by (nonlinear_arith);
    assert(i < 127 ==> (a + (i + 1)) % 128 != (a + 128) % 128) by (nonlinear_arith)
        requires
            0 <= i < 128,
            a >= 0,
    ;
}

proof fn lemma_saturated_slot(i: int)
    requires
        0 <= i < MAX_TRACE_EVENTS,
    ensures
        ring_slot(u64::MAX, MAX_TRACE_EVENTS, i) == (if i == 0 {
            127
        } else {
            i - 1
        }),
        u64::MAX % 128 == 127,
{
    assert(u64::MAX - 128 == 128 * 144115188075855870 + 127);
    assert((128 * 144115188075855870 + 127 + i) % 128 == (127 + i) % 128) by (nonlinear_arith)
        requires
            0 <= i < 128,
    ;
}

impl Trace {
    pub closed spec fn wf(&self) -> bool {
        &&& self.events@.len() == MAX_TRACE_EVENTS
        &&& self.len == (if self.next < MAX_TRACE_EVENTS {
            self.next as int
        } else {
            MAX_TRACE_EVENTS as int
        })
        &&& self.log@.len() == self.len
        &&& forall|i: int|
            0 <= i < self.len ==> #[trigger] self.events@[ring_slot(self.next, self.len, i)]
                == Some(self.log@[i])
    }

    /// The retained events, oldest first.
    pub closed spec fn view(&self) -> Seq<TraceEvent> {
        self.log@
    }

    /// The sequence number the next event gets.
    pub closed spec fn next_sequence(&self) -> u64 {
        self.next
    }

    /// An empty log.
    pub fn new() -> (r: Self)
        ensures
            r.wf(),
            r@ == Seq::<TraceEvent>::empty(),
            r.next_sequence() == 0,
    {
        let mut events: Vec<Option<TraceEvent>> = Vec::new();
        let mut i: usize = 0;
        while i < MAX_TRACE_EVENTS
            invariant
                i <= MAX_TRACE_EVENTS,
                events@.len() == i,
            decreases MAX_TRACE_EVENTS - i,
        {
            events.push(None);
            i = i + 1;
        }
        Trace { events, next: 0, len: 0, log: Ghost(Seq::empty()) }
    }

    /// Records `event` under the next sequence number.
    pub fn record(&mut self, event: TraceEvent)
        requires
            old(self).wf(),
            event.sequence == old(self).next_sequence(),
        ensures
            final(self).wf(),
            final(self)@ == logged(old(self)@, old(self).next_sequence(), event),
            final(self).next_sequence() == (if old(self).next_sequence() == u64::MAX {
                u64::MAX
            } else {
                (old(self).next_sequence() + 1) as u64
            }),
    {
        let ghost old_log = self.log@;
        let ghost old_next = self.next;
        let ghost old_len = self.len;
        let index: usize = (self.next % 128) as usize;
        self.events.set(index, Some(event));
        if self.next == u64::MAX {
            proof {
                assert forall|i: int| 0 <= i < old_len implies #[trigger] self.events@[ring_slot(
                    self.next,
                    self.len,
                    i,
                )] == Some(old_log.update(0, event)[i]) by {
                    lemma_saturated_slot(i);
                }
            }
            self.log = Ghost(old_log.update(0, event));
        } else if self.len < MAX_TRACE_EVENTS {
            self.next = self.next + 1;
            self.len = self.len + 1;
            proof {
                assert forall|i: int| 0 <= i < self.len implies #[trigger] self.events@[ring_slot(
                    self.next,
                    self.len,
                    i,
                )] == Some(old_log.push(event)[i]) by {
                    assert(ring_slot(self.next, self.len, i) == i);
                    assert(ring_slot(old_next, old_len, i) == i);
                }
            }
            self.log = Ghost(old_log.push(event));
        } else {
            self.next = self.next + 1;
            proof {
                assert forall|i: int| 0 <= i < self.len implies #[trigger] self.events@[ring_slot(
                    self.next,
                    self.len,
                    i,
                )] == Some(old_log.drop_first().push(event)[i]) by {
                    lemma_ring_shift(old_next, i);
                    if i < 127 {
                        assert(ring_slot(self.next, self.len, i) == ring_slot(
                            old_next,
                            old_len,
                            i + 1,
                        ));
                    }
                }
            }
            self.log = Ghost(old_log.drop_first().push(event));
        }
    }

    /// The retained events, oldest first.
    pub fn events(&self) -> (r: Vec<TraceEvent>)
        requires
            self.wf(),
        ensures
            r@ == self@,
    {
        let mut out: Vec<TraceEvent> = Vec::new();
        let start: u64 = self.next - self.len as u64;
        let mut offset: usize = 0;
        while offset < self.len
            invariant
                self.wf(),
                start == self.next - self.len,
                offset <= self.len,
                out@ == self@.take(offset as int),
            decreases self.len - offset,
        {
            let index: usize = ((start + offset as u64) % 128) as usize;
            assert(index == ring_slot(self.next, self.len, offset as int));
            match self.events[index] {
                Some(event) => {
                    out.push(event);
                },
                None => {},
            }
            assert(out@ == self@.take(offset + 1));
            offset = offset + 1;
        }
        assert(self@.take(self.len as int) == self@);
        out
    }
}

pub fn trace_op_name(operation: TraceOp) -> (r: &'static str)
    ensures
        r@ == spec_trace_op_name(operation)@,
{
    match operation {
        TraceOp::Discover => "discover",
        TraceOp::Match => "match",
        TraceOp::Probe => "probe",
        TraceOp::Publish => "publish",
        TraceOp::Suspend => "suspend",
        TraceOp::Resume => "resume",
        TraceOp::Quiesce => "quiesce",
        TraceOp::Remove => "remove",
        TraceOp::Revoke => "revoke",
        TraceOp::HotUnplug => "hot-unplug",
        TraceOp::Rebind => "rebind",
        TraceOp::ResourceAdd => "resource-add",
        TraceOp::ResourceRelease => "resource-release",
    }
}

pub open spec fn spec_trace_op_name(operation: TraceOp) -> &'static str {
    match operation {
        TraceOp::Discover => "discover",
        TraceOp::Match => "match",
        TraceOp::Probe => "probe",
        TraceOp::Publish => "publish",
        TraceOp::Suspend => "suspend",
        TraceOp::Resume => "resume",
        TraceOp::Quiesce => "quiesce",
        TraceOp::Remove => "remove",
        TraceOp::Revoke => "revoke",
        TraceOp::HotUnplug => "hot-unplug",
        TraceOp::Rebind => "rebind",
        TraceOp::ResourceAdd => "resource-add",
        TraceOp::ResourceRelease => "resource-release",
    }
}


/// The bus a device sits on; it lists the devices discovered on it, each once.
pub struct Bus {
    pub id: BusId,
    pub name: &'static str,
    pub kind: BusKind,
    pub devices: Vec<DeviceId>,
}

impl Bus {
    pub open spec fn device_list(&self) -> Seq<DeviceId> {
        self.devices@
    }

    pub fn new(id: BusId, name: &'static str, kind: BusKind) -> (r: Self)
        ensures
            r.id == id,
            r.name == name,
            r.kind == kind,
            r.device_list() == Seq::<DeviceId>::empty(),
    {
        Bus { id, name, kind, devices: Vec::new() }
    }

    /// Adds `device` to the bus; a device already listed is not added twice.
    pub fn attach(&mut self, device: DeviceId) -> (r: Result<(), DriverError>)
        ensures
            final(self).id == old(self).id,
            final(self).name == old(self).name,
            final(self).kind == old(self).kind,
            old(self).device_list().len() >= MAX_DEVICES_PER_BUS ==> r == Err::<(), DriverError>(
                DriverError::BusCapacity,
            ) && final(self).device_list() == old(self).device_list(),
            old(self).device_list().len() < MAX_DEVICES_PER_BUS ==> r is Ok && final(self).device_list() == (if old(self).device_list().contains(device) {
                old(self).device_list()
            } else {
                old(self).device_list().push(device)
            }),
    {
        if self.devices.len() >= MAX_DEVICES_PER_BUS {
            return Err(DriverError::BusCapacity);
        }
        let mut i: usize = 0;
        while i < self.devices.len()
            invariant
                i <= self.devices@.len(),
                self.devices@.len() < MAX_DEVICES_PER_BUS,
                forall|j: int| 0 <= j < i ==> self.devices@[j] != device,
            decreases self.devices@.len() - i,
        {
            if self.devices[i] == device {
                assert(self.devices@.contains(device));
                return Ok(());
            }
            i = i + 1;
        }
        self.devices.push(device);
        Ok(())
    }

    pub fn devices(&self) -> (r: &[DeviceId])
        ensures
            r@ == self.device_list(),
    {
        self.devices.as_slice()
    }
}

/// The lifecycle moves the framework allows.
pub open spec fn valid_transition(from: DeviceState, to: DeviceState) -> bool {
    match (from, to) {
        (DeviceState::Discovered, DeviceState::Probing) => true,
        (DeviceState::Probing, DeviceState::Ready) => true,
        (DeviceState::Ready, DeviceState::Suspended) => true,
        (DeviceState::Suspended, DeviceState::Ready) => true,
        (DeviceState::Probing, DeviceState::Deferred) => true,
        (DeviceState::Probing, DeviceState::Unsupported) => true,
        (DeviceState::Probing, DeviceState::Busy) => true,
        (DeviceState::Probing, DeviceState::Failed) => true,
        (DeviceState::Ready, DeviceState::Quiescing) => true,
        (DeviceState::Suspended, DeviceState::Quiescing) => true,
        (DeviceState::Quiescing, DeviceState::Removed) => true,
        (DeviceState::Quiescing, DeviceState::Failed) => true,
        (DeviceState::Failed, DeviceState::Removed) => true,
        (DeviceState::Failed, DeviceState::Probing) => true,
        (DeviceState::Removed, DeviceState::Probing) => true,
        (DeviceState::Deferred, DeviceState::Probing) => true,
        (DeviceState::Unsupported, DeviceState::Probing) => true,
        (DeviceState::Busy, DeviceState::Probing) => true,
        _ => false,
    }
}

/// The states in which a device's resources may be given back.
pub open spec fn may_release(state: DeviceState) -> bool {
    state == DeviceState::Failed || state == DeviceState::Deferred || state
        == DeviceState::Unsupported || state == DeviceState::Busy || state == DeviceState::Removed
}

pub open spec fn count_irqs(s: Seq<Resource>) -> nat
    decreases s.len(),
{
    if s.len() == 0 {
        0
    } else {
        count_irqs(s.drop_last()) + (if s.last() is Irq {
            1nat
        } else {
            0nat
        })
    }
}

pub open spec fn count_dmas(s: Seq<Resource>) -> nat
    decreases s.len(),
{
    if s.len() == 0 {
        0
    } else {
        count_dmas(s.drop_last()) + (if s.last() is Dma {
            1nat
        } else {
            0nat
        })
    }
}

proof fn lemma_counts_bounded(s: Seq<Resource>)
    ensures
        count_irqs(s) <= s.len(),
        count_dmas(s) <= s.len(),
    decreases s.len(),
{
    if s.len() > 0 {
        lemma_counts_bounded(s.drop_last());
    }
}

/// A device, its resources, the driver bound to it, and whether it is published.
pub struct Device {
    pub id: DeviceId,
    pub bus: BusId,
    pub bus_kind: BusKind,
    pub name: &'static str,
    pub class: Class,
    pub state: DeviceState,
    pub resources: Vec<Resource>,
    pub driver: Option<DriverId>,
    pub published: bool,
}

/// Two devices agree on everything but their lifecycle.
pub open spec fn same_identity(a: Device, b: Device) -> bool {
    a.id == b.id && a.bus == b.bus && a.bus_kind == b.bus_kind && a.name == b.name && a.class
        == b.class
}

/// The event that records `operation` on `device` under sequence number `sequence`.
pub open spec fn event_for(
    sequence: u64,
    operation: TraceOp,
    device: Device,
    driver: Option<DriverId>,
    success: bool,
) -> TraceEvent {
    TraceEvent {
        sequence,
        operation,
        device: device.id,
        driver,
        state: device.state,
        resources: device.resource_list().len() as usize,
        irqs: count_irqs(device.resource_list()) as usize,
        dmas: count_dmas(device.resource_list()) as usize,
        success,
    }
}

/// The log after `trace` records `operation` on `device`.
pub open spec fn traced(
    trace: Trace,
    operation: TraceOp,
    device: Device,
    driver: Option<DriverId>,
    success: bool,
) -> Seq<TraceEvent> {
    logged(trace@, trace.next_sequence(), event_for(trace.next_sequence(), operation, device, driver, success))
}

impl Device {
    pub open spec fn resource_list(&self) -> Seq<Resource> {
        self.resources@
    }

    pub open spec fn driver_spec(&self) -> Option<DriverId> {
        self.driver
    }

    pub open spec fn published_spec(&self) -> bool {
        self.published
    }

    pub fn new(id: DeviceId, bus: BusId, bus_kind: BusKind, name: &'static str, class: Class) -> (r:
        Self)
        ensures
            r.id == id,
            r.bus == bus,
            r.bus_kind == bus_kind,
            r.name == name,
            r.class == class,
            r.state == DeviceState::Discovered,
            r.resource_list() == Seq::<Resource>::empty(),
            r.driver_spec() is None,
            !r.published_spec(),
    {
        Device {
            id,
            bus,
            bus_kind,
            name,
            class,
            state: DeviceState::Discovered,
            resources: Vec::new(),
            driver: None,
            published: false,
        }
    }

    /// Moves to `next` when the lifecycle allows it, and otherwise leaves the device
    /// as it was.
    pub fn transition(&mut self, next: DeviceState) -> (r: Result<(), DriverError>)
        ensures
            valid_transition(old(self).state, next) ==> r is Ok && *final(self) == (Device {
                state: next,
                ..*old(self)
            }),
            !valid_transition(old(self).state, next) ==> r == Err::<(), DriverError>(
                DriverError::InvalidState { expected: next, actual: old(self).state },
            ) && *final(self) == *old(self),
    {
        let valid = match (self.state, next) {
            (DeviceState::Discovered, DeviceState::Probing) => true,
            (DeviceState::Probing, DeviceState::Ready) => true,
            (DeviceState::Ready, DeviceState::Suspended) => true,
            (DeviceState::Suspended, DeviceState::Ready) => true,
            (DeviceState::Probing, DeviceState::Deferred) => true,
            (DeviceState::Probing, DeviceState::Unsupported) => true,
            (DeviceState::Probing, DeviceState::Busy) => true,
            (DeviceState::Probing, DeviceState::Failed) => true,
            (DeviceState::Ready, DeviceState::Quiescing) => true,
            (DeviceState::Suspended, DeviceState::Quiescing) => true,
            (DeviceState::Quiescing, DeviceState::Removed) => true,
            (DeviceState::Quiescing, DeviceState::Failed) => true,
            (DeviceState::Failed, DeviceState::Removed) => true,
            (DeviceState::Failed, DeviceState::Probing) => true,
            (DeviceState::Removed, DeviceState::Probing) => true,
            (DeviceState::Deferred, DeviceState::Probing) => true,
            (DeviceState::Unsupported, DeviceState::Probing) => true,
            (DeviceState::Busy, DeviceState::Probing) => true,
            _ => false,
        };
        if !valid {
            return Err(DriverError::InvalidState { expected: next, actual: self.state });
        }
        self.state = next;
        Ok(())
    }

    /// The number of resources, interrupt lines and DMA buffers the device holds.
    fn resource_summary(&self) -> (r: (usize, usize, usize))
        ensures
            r.0 == self.resource_list().len(),
            r.1 == count_irqs(self.resource_list()),
            r.2 == count_dmas(self.resource_list()),
    {
        let mut irqs: usize = 0;
        let mut dmas: usize = 0;
        let mut i: usize = 0;
        while i < self.resources.len()
            invariant
                i <= self.resources@.len(),
                irqs == count_irqs(self.resources@.take(i as int)),
                dmas == count_dmas(self.resources@.take(i as int)),
            decreases self.resources@.len() - i,
        {
            proof {
                lemma_counts_bounded(self.resources@.take(i as int));
                assert(self.resources@.take(i + 1).drop_last() == self.resources@.take(i as int));
            }
            match self.resources[i] {
                Resource::Irq(_) => irqs = irqs + 1,
                Resource::Dma(_) => dmas = dmas + 1,
                _ => {},
            }
            i = i + 1;
        }
        assert(self.resources@.take(i as int) == self.resources@);
        (self.resources.len(), irqs, dmas)
    }

    /// Accepts a resource the device owns, that is well formed, while there is room.
    pub fn add_resource(&mut self, trace: &mut Trace, resource: Resource) -> (r: Result<
        (),
        DriverError,
    >)
        requires
            old(trace).wf(),
        ensures
            final(trace).wf(),
            resource_owner(resource) != old(self).id ==> r == Err::<(), DriverError>(
                DriverError::ResourceOwnerMismatch,
            ),
            resource_owner(resource) == old(self).id && resource_check(resource) is Err ==> r
                == resource_check(resource),
            resource_owner(resource) == old(self).id && resource_check(resource) is Ok && old(self).resource_list().len() >= MAX_RESOURCES ==> r == Err::<(), DriverError>(
                DriverError::ResourceCapacity,
            ),
            r is Err ==> *final(self) == *old(self) && *final(trace) == *old(trace),
            r is Ok <==> (resource_owner(resource) == old(self).id && resource_check(resource) is Ok
                && old(self).resource_list().len() < MAX_RESOURCES),
            r is Ok ==> *final(self) == (Device { resources: final(self).resources, ..*old(self) })
                && final(self).resource_list() == old(self).resource_list().push(resource)
                && final(trace)@ == traced(
                *old(trace),
                TraceOp::ResourceAdd,
                *final(self),
                old(self).driver_spec(),
                true,
            ),
    {
        if resource.owner() != self.id {
            return Err(DriverError::ResourceOwnerMismatch);
        }
        match resource.validate() {
            Err(e) => return Err(e),
            Ok(()) => {},
        }
        if self.resources.len() >= MAX_RESOURCES {
            return Err(DriverError::ResourceCapacity);
        }
        self.resources.push(resource);
        trace_event(trace, TraceOp::ResourceAdd, self, self.driver, true);
        Ok(())
    }

    pub fn resources(&self) -> (r: &[Resource])
        ensures
            r@ == self.resource_list(),
    {
        self.resources.as_slice()
    }

    /// Gives back every resource, in the states where the device no longer uses them.
    pub fn release_resources(&mut self, trace: &mut Trace) -> (r: Result<(), DriverError>)
        requires
            old(trace).wf(),
        ensures
            final(trace).wf(),
            may_release(old(self).state) ==> r is Ok && *final(self) == (Device {
                resources: final(self).resources,
                ..*old(self)
            }) && final(self).resource_list() == Seq::<Resource>::empty() && final(trace)@
                == traced(
                *old(trace),
                TraceOp::ResourceRelease,
                *final(self),
                old(self).driver_spec(),
                true,
            ),
            !may_release(old(self).state) ==> r == Err::<(), DriverError>(
                DriverError::InvalidState { expected: DeviceState::Removed, actual: old(self).state },
            ) && *final(self) == *old(self) && *final(trace) == *old(trace),
    {
        if !(self.state == DeviceState::Failed || self.state == DeviceState::Deferred || self.state
            == DeviceState::Unsupported || self.state == DeviceState::Busy || self.state
            == DeviceState::Removed) {
            return Err(DriverError::InvalidState { expected: DeviceState::Removed, actual: self.state });
        }
        self.resources = Vec::new();
        trace_event(trace, TraceOp::ResourceRelease, self, self.driver, true);
        Ok(())
    }

    /// Binds `driver` to a device being probed that has none bound.
    pub fn bind_driver(&mut self, driver: DriverId) -> (r: Result<(), DriverError>)
        ensures
            old(self).driver_spec() is Some ==> r == Err::<(), DriverError>(
                DriverError::DriverAlreadyBound,
            ) && *final(self) == *old(self),
            old(self).driver_spec() is None && old(self).state != DeviceState::Probing ==> r == Err::<
                (),
                DriverError,
            >(DriverError::InvalidState { expected: DeviceState::Probing, actual: old(self).state })
                && *final(self) == *old(self),
            old(self).driver_spec() is None && old(self).state == DeviceState::Probing ==> r is Ok
                && *final(self) == (Device { driver: Some(driver), ..*old(self) }),
    {
        if self.driver.is_some() {
            return Err(DriverError::DriverAlreadyBound);
        }
        if self.state != DeviceState::Probing {
            return Err(DriverError::InvalidState { expected: DeviceState::Probing, actual: self.state });
        }
        self.driver = Some(driver);
        Ok(())
    }

    /// Unbinds and returns the bound driver.
    pub fn unbind_driver(&mut self) -> (r: Result<DriverId, DriverError>)
        ensures
            old(self).driver_spec() is None ==> r == Err::<DriverId, DriverError>(
                DriverError::DriverNotBound,
            ) && *final(self) == *old(self),
            old(self).driver_spec() is Some ==> r == Ok::<DriverId, DriverError>(
                old(self).driver_spec().unwrap(),
            ) && *final(self) == (Device { driver: None, ..*old(self) }),
    {
        match self.driver {
            Some(driver) => {
                self.driver = None;
                Ok(driver)
            },
            None => Err(DriverError::DriverNotBound),
        }
    }

    pub fn bound_driver(&self) -> (r: Option<DriverId>)
        ensures
            r == self.driver_spec(),
    {
        self.driver
    }

    /// Publishes a ready device.
    pub fn publish(&mut self) -> (r: Result<(), DriverError>)
        ensures
            old(self).state == DeviceState::Ready ==> r is Ok && *final(self) == (Device {
                published: true,
                ..*old(self)
            }),
            old(self).state != DeviceState::Ready ==> r == Err::<(), DriverError>(
                DriverError::InvalidState { expected: DeviceState::Ready, actual: old(self).state },
            ) && *final(self) == *old(self),
    {
        if self.state != DeviceState::Ready {
            return Err(DriverError::InvalidState { expected: DeviceState::Ready, actual: self.state });
        }
        self.published = true;
        Ok(())
    }

    /// Withdraws a published device.
    pub fn unpublish(&mut self) -> (r: Result<(), DriverError>)
        ensures
            old(self).published_spec() ==> r is Ok && *final(self) == (Device {
                published: false,
                ..*old(self)
            }),
            !old(self).published_spec() ==> r == Err::<(), DriverError>(DriverError::NotPublished)
                && *final(self) == *old(self),
    {
        if !self.published {
            return Err(DriverError::NotPublished);
        }
        self.published = false;
        Ok(())
    }

    pub fn is_published(&self) -> (r: bool)
        ensures
            r == self.published_spec(),
    {
        self.published
    }
}

/// Records `operation` on `device` in the log.
pub fn trace_event(
    trace: &mut Trace,
    operation: TraceOp,
    device: &Device,
    driver: Option<DriverId>,
    success: bool,
)
    requires
        old(trace).wf(),
    ensures
        final(trace).wf(),
        final(trace)@ == traced(*old(trace), operation, *device, driver, success),
        final(trace).next_sequence() == (if old(trace).next_sequence() == u64::MAX {
            u64::MAX
        } else {
            (old(trace).next_sequence() + 1) as u64
        }),
{
    let (resources, irqs, dmas) = device.resource_summary();
    let sequence = trace.next;
    trace.record(
        TraceEvent {
            sequence,
            operation,
            device: device.id,
            driver,
            state: device.state,
            resources,
            irqs,
            dmas,
            success,
        },
    );
}


/// One step of a driver's work on a device (probe, suspend, resume, quiesce or
/// remove). It may add resources to the device, which the log records, and it may fail.
pub trait DeviceCallback {
    /// The outcome this callback always reports, leaving the device and the trace as
    /// they were, when it is a callback of that kind.
    spec fn fixed_outcome(&self) -> Option<Result<(), DriverError>>;

    fn call(&self, trace: &mut Trace, device: &mut Device) -> (r: Result<(), DriverError>)
        requires
            old(trace).wf(),
        ensures
            final(trace).wf(),
            self.fixed_outcome() matches Some(outcome) ==> r == outcome && *final(device) == *old(device)
                && *final(trace) == *old(trace),
    ;
}

/// A callback that leaves the device alone and reports a fixed outcome.
#[derive(Clone, Copy, Debug)]
pub struct FixedOutcome(pub Result<(), DriverError>);

impl DeviceCallback for FixedOutcome {
    open spec fn fixed_outcome(&self) -> Option<Result<(), DriverError>> {
        Some(self.0)
    }

    fn call(&self, trace: &mut Trace, device: &mut Device) -> (r: Result<(), DriverError>)
        ensures
            r == self.0,
            *final(device) == *old(device),
            *final(trace) == *old(trace),
    {
        self.0
    }
}

#[derive(Clone, Copy, Debug)]
pub struct DriverOps<C> {
    pub probe: C,
    pub suspend: Option<C>,
    pub resume: Option<C>,
    pub quiesce: Option<C>,
    pub remove: C,
}

#[derive(Clone, Copy, Debug)]
pub struct Driver<C> {
    pub id: DriverId,
    pub name: &'static str,
    pub class: Class,
    pub bus: BusKind,
    pub stage: DriverStage,
    pub ops: Option<DriverOps<C>>,
}

/// A driver serves devices of its class on its kind of bus.
pub open spec fn driver_matches<C>(driver: Driver<C>, device: Device) -> bool {
    driver.class == device.class && driver.bus == device.bus_kind
}

impl<C> Driver<C> {
    /// A runtime driver without callbacks.
    pub fn new(id: DriverId, name: &'static str, class: Class, bus: BusKind) -> (r: Self)
        ensures
            r.id == id && r.name == name && r.class == class && r.bus == bus,
            r.stage == DriverStage::Runtime,
            r.ops is None,
    {
        Driver { id, name, class, bus, stage: DriverStage::Runtime, ops: None }
    }

    /// An early-boot driver without callbacks.
    pub fn early(id: DriverId, name: &'static str, class: Class, bus: BusKind) -> (r: Self)
        ensures
            r.id == id && r.name == name && r.class == class && r.bus == bus,
            r.stage == DriverStage::Early,
            r.ops is None,
    {
        Driver { id, name, class, bus, stage: DriverStage::Early, ops: None }
    }

    /// A runtime driver with callbacks.
    pub fn with_ops(
        id: DriverId,
        name: &'static str,
        class: Class,
        bus: BusKind,
        ops: DriverOps<C>,
    ) -> (r: Self)
        ensures
            r.id == id && r.name == name && r.class == class && r.bus == bus,
            r.stage == DriverStage::Runtime,
            r.ops == Some(ops),
    {
        Driver { id, name, class, bus, stage: DriverStage::Runtime, ops: Some(ops) }
    }

    pub fn matches(&self, device: &Device) -> (r: bool)
        ensures
            r == driver_matches(*self, *device),
    {
        self.class == device.class && self.bus == device.bus_kind
    }
}

/// Lists a freshly discovered device on its bus.
pub fn discover(trace: &mut Trace, bus: &mut Bus, device: &mut Device) -> (r: Result<(), DriverError>)
    requires
        old(trace).wf(),
    ensures
        final(trace).wf(),
        *final(device) == *old(device),
        final(bus).id == old(bus).id && final(bus).name == old(bus).name && final(bus).kind == old(bus).kind,
        old(device).bus != old(bus).id || old(device).bus_kind != old(bus).kind ==> r == Err::<
            (),
            DriverError,
        >(DriverError::NotMatched) && final(bus).devices@ == old(bus).devices@ && *final(trace)
            == *old(trace),
        old(device).bus == old(bus).id && old(device).bus_kind == old(bus).kind && old(device).state
            != DeviceState::Discovered ==> r == Err::<(), DriverError>(
            DriverError::InvalidState {
                expected: DeviceState::Discovered,
                actual: old(device).state,
            },
        ) && final(bus).devices@ == old(bus).devices@ && *final(trace) == *old(trace),
        old(device).bus == old(bus).id && old(device).bus_kind == old(bus).kind && old(device).state
            == DeviceState::Discovered ==> {
            &&& old(bus).devices@.len() >= MAX_DEVICES_PER_BUS ==> r == Err::<(), DriverError>(
                DriverError::BusCapacity,
            ) && final(bus).devices@ == old(bus).devices@
            &&& old(bus).devices@.len() < MAX_DEVICES_PER_BUS ==> r is Ok && final(bus).devices@
                == (if old(bus).devices@.contains(old(device).id) {
                old(bus).devices@
            } else {
                old(bus).devices@.push(old(device).id)
            })
            &&& final(trace)@ == traced(*old(trace), TraceOp::Discover, *old(device), None, r is Ok)
        },
{
    if device.bus != bus.id || device.bus_kind != bus.kind {
        return Err(DriverError::NotMatched);
    }
    if device.state != DeviceState::Discovered {
        return Err(DriverError::InvalidState { expected: DeviceState::Discovered, actual: device.state });
    }
    let result = bus.attach(device.id);
    trace_event(trace, TraceOp::Discover, device, None, result.is_ok());
    result
}

/// Whether `driver` serves `device`; the decision is logged.
pub fn match_driver<C>(trace: &mut Trace, driver: &Driver<C>, device: &Device) -> (r: bool)
    requires
        old(trace).wf(),
    ensures
        final(trace).wf(),
        r == driver_matches(*driver, *device),
        final(trace)@ == traced(*old(trace), TraceOp::Match, *device, Some(driver.id), r),
{
    let matched = driver.matches(device);
    trace_event(trace, TraceOp::Match, device, Some(driver.id), matched);
    matched
}

/// The state a device settles in after its probe failed with `error`.
pub open spec fn error_state(error: DriverError) -> DeviceState {
    match error {
        DriverError::DeviceAbsent => DeviceState::Unsupported,
        DriverError::Deferred => DeviceState::Deferred,
        DriverError::Unsupported => DeviceState::Unsupported,
        DriverError::Busy => DeviceState::Busy,
        _ => DeviceState::Failed,
    }
}

pub fn probe_error_state(error: DriverError) -> (r: DeviceState)
    ensures
        r == error_state(error),
{
    match error {
        DriverError::DeviceAbsent => DeviceState::Unsupported,
        DriverError::Deferred => DeviceState::Deferred,
        DriverError::Unsupported => DeviceState::Unsupported,
        DriverError::Busy => DeviceState::Busy,
        _ => DeviceState::Failed,
    }
}

/// The state after an attempt to mark a device failed.
pub open spec fn failed_or_same(state: DeviceState) -> DeviceState {
    if valid_transition(state, DeviceState::Failed) {
        DeviceState::Failed
    } else {
        state
    }
}

/// Everything but the lifecycle state and the resources is as before.
pub open spec fn keeps_binding(after: Device, before: Device) -> bool {
    after == (Device { state: after.state, resources: after.resources, ..before })
}

/// What completing a probe does to the device `before` once the callback answered
/// `outcome`, giving `r` and leaving `after`.
pub open spec fn probe_finished(
    before: Device,
    driver: DriverId,
    outcome: Result<(), DriverError>,
    r: Result<(), DriverError>,
    after: Device,
) -> bool {
    match outcome {
        Err(error) => {
            let next = error_state(error);
            &&& valid_transition(before.state, next) ==> r == Err::<(), DriverError>(error)
                && after.state == next && keeps_binding(after, before)
                && after.resources@ == Seq::<Resource>::empty()
            &&& !valid_transition(before.state, next) ==> r == Err::<(), DriverError>(
                DriverError::InvalidState { expected: next, actual: before.state },
            ) && after == before
        },
        Ok(()) => {
            let bindable = before.driver is None && before.state
                == DeviceState::Probing;
            &&& bindable ==> r is Ok && after == (Device {
                state: DeviceState::Ready,
                driver: Some(driver),
                ..before
            })
            &&& !bindable ==> r == Err::<(), DriverError>(
                if before.driver is Some {
                    DriverError::DriverAlreadyBound
                } else {
                    DriverError::InvalidState {
                        expected: DeviceState::Probing,
                        actual: before.state,
                    }
                },
            ) && after.state == failed_or_same(before.state) && keeps_binding(
                after,
                before,
            ) && after.resources@ == (if may_release(
                failed_or_same(before.state),
            ) {
                Seq::<Resource>::empty()
            } else {
                before.resources@
            })
        },
    }
}

/// Completes a probe once the driver's probe callback has answered `outcome`: a
/// failure settles the device in the state `error_state` names and gives back its
/// resources; success binds the driver and makes the device ready.
pub fn finish_probe(
    trace: &mut Trace,
    device: &mut Device,
    driver: DriverId,
    outcome: Result<(), DriverError>,
) -> (r: Result<(), DriverError>)
    requires
        old(trace).wf(),
    ensures
        final(trace).wf(),
        probe_finished(*old(device), driver, outcome, r, *final(device)),
{
    match outcome {
        Err(error) => {
            let state = probe_error_state(error);
            match device.transition(state) {
                Err(transition_error) => {
                    trace_event(trace, TraceOp::Probe, device, Some(driver), false);
                    return Err(transition_error);
                },
                Ok(()) => {},
            }
            let _ = device.release_resources(trace);
            trace_event(trace, TraceOp::Probe, device, Some(driver), false);
            Err(error)
        },
        Ok(()) => {
            match device.bind_driver(driver) {
                Err(error) => {
                    let _ = device.transition(DeviceState::Failed);
                    let _ = device.release_resources(trace);
                    trace_event(trace, TraceOp::Probe, device, Some(driver), false);
                    return Err(error);
                },
                Ok(()) => {},
            }
            let result = device.transition(DeviceState::Ready);
            trace_event(trace, TraceOp::Probe, device, Some(driver), result.is_ok());
            result
        },
    }
}

/// Probes `device` with `driver`: it must match and be in a state from which probing
/// may start; a driver without callbacks leaves the device unsupported.
pub fn probe<C: DeviceCallback>(trace: &mut Trace, device: &mut Device, driver: &Driver<C>) -> (r:
    Result<(), DriverError>)
    requires
        old(trace).wf(),
    ensures
        final(trace).wf(),
        !driver_matches(*driver, *old(device)) ==> r == Err::<(), DriverError>(
            DriverError::NotMatched,
        ) && *final(device) == *old(device),
        driver_matches(*driver, *old(device)) && !valid_transition(
            old(device).state,
            DeviceState::Probing,
        ) ==> r == Err::<(), DriverError>(
            DriverError::InvalidState { expected: DeviceState::Probing, actual: old(device).state },
        ) && *final(device) == *old(device),
        driver_matches(*driver, *old(device)) && valid_transition(
            old(device).state,
            DeviceState::Probing,
        ) && driver.ops is None ==> r == Err::<(), DriverError>(DriverError::Unsupported)
            && final(device).state == DeviceState::Unsupported && keeps_binding(
            *final(device),
            *old(device),
        ) && final(device).resources@ == Seq::<Resource>::empty(),
        r is Ok ==> final(device).state == DeviceState::Ready && final(device).driver == Some(
            driver.id,
        ),
        driver_matches(*driver, *old(device)) && valid_transition(old(device).state, DeviceState::Probing)
            && driver.ops is Some ==> match r {
            Err(e) => !(e is InvalidState) && e != DriverError::DriverAlreadyBound ==> final(device).state
                == error_state(e) && final(device).resources@ == Seq::<Resource>::empty(),
            Ok(()) => true,
        },
        driver_matches(*driver, *old(device)) && valid_transition(old(device).state, DeviceState::Probing)
            ==> match driver.ops {
            Some(ops) => match ops.probe.fixed_outcome() {
                Some(outcome) => probe_finished(
                    Device { state: DeviceState::Probing, ..*old(device) },
                    driver.id,
                    outcome,
                    r,
                    *final(device),
                ),
                None => true,
            },
            None => true,
        },
{
    if !driver.matches(device) {
        trace_event(trace, TraceOp::Probe, device, Some(driver.id), false);
        return Err(DriverError::NotMatched);
    }
    match device.transition(DeviceState::Probing) {
        Err(error) => {
            trace_event(trace, TraceOp::Probe, device, Some(driver.id), false);
            return Err(error);
        },
        Ok(()) => {},
    }
    match &driver.ops {
        None => {
            if device.transition(DeviceState::Unsupported).is_err() {
                trace_event(trace, TraceOp::Probe, device, Some(driver.id), false);
                return Err(
                    DriverError::InvalidState {
                        expected: DeviceState::Unsupported,
                        actual: device.state,
                    },
                );
            }
            let _ = device.release_resources(trace);
            trace_event(trace, TraceOp::Probe, device, Some(driver.id), false);
            Err(DriverError::Unsupported)
        },
        Some(ops) => {
            let outcome = ops.probe.call(trace, device);
            finish_probe(trace, device, driver.id, outcome)
        },
    }
}

/// Publishes a ready device; the attempt is logged.
pub fn publish(trace: &mut Trace, device: &mut Device) -> (r: Result<(), DriverError>)
    requires
        old(trace).wf(),
    ensures
        final(trace).wf(),
        old(device).state == DeviceState::Ready ==> r is Ok && *final(device) == (Device {
            published: true,
            ..*old(device)
        }),
        old(device).state != DeviceState::Ready ==> r == Err::<(), DriverError>(
            DriverError::InvalidState { expected: DeviceState::Ready, actual: old(device).state },
        ) && *final(device) == *old(device),
        final(trace)@ == traced(
            *old(trace),
            TraceOp::Publish,
            *final(device),
            old(device).driver,
            r is Ok,
        ),
{
    let result = device.publish();
    let driver = device.bound_driver();
    trace_event(trace, TraceOp::Publish, device, driver, result.is_ok());
    result
}

/// What completing a step toward `target` does to the device `before` once its
/// callback answered `outcome`, giving `r` and leaving `after`.
pub open spec fn step_finished(
    before: Device,
    target: DeviceState,
    outcome: Result<(), DriverError>,
    r: Result<(), DriverError>,
    after: Device,
) -> bool {
    match outcome {
        Err(_) => r == outcome && after == before,
        Ok(()) => if valid_transition(before.state, target) {
            r is Ok && after == (Device { state: target, ..before })
        } else {
            r == Err::<(), DriverError>(DriverError::InvalidState { expected: target, actual: before.state })
                && after == before
        },
    }
}

/// Completes a step whose callback answered `outcome`: a failure is reported as is;
/// success moves the device to `target`.
pub fn finish_step(
    trace: &mut Trace,
    device: &mut Device,
    operation: TraceOp,
    driver: DriverId,
    outcome: Result<(), DriverError>,
    target: DeviceState,
) -> (r: Result<(), DriverError>)
    requires
        old(trace).wf(),
    ensures
        final(trace).wf(),
        outcome is Err ==> r == outcome && *final(device) == *old(device),
        outcome is Ok && valid_transition(old(device).state, target) ==> r is Ok && *final(device)
            == (Device { state: target, ..*old(device) }),
        outcome is Ok && !valid_transition(old(device).state, target) ==> r == Err::<
            (),
            DriverError,
        >(DriverError::InvalidState { expected: target, actual: old(device).state })
            && *final(device) == *old(device),
        final(trace)@ == traced(*old(trace), operation, *final(device), Some(driver), r is Ok),
{
    match outcome {
        Err(error) => {
            trace_event(trace, operation, device, Some(driver), false);
            Err(error)
        },
        Ok(()) => {
            let result = device.transition(target);
            trace_event(trace, operation, device, Some(driver), result.is_ok());
            result
        },
    }
}

/// Suspends a ready device through its bound driver's suspend callback.
pub fn suspend<C: DeviceCallback>(trace: &mut Trace, device: &mut Device, driver: &Driver<C>) -> (r:
    Result<(), DriverError>)
    requires
        old(trace).wf(),
    ensures
        final(trace).wf(),
        old(device).driver != Some(driver.id) ==> r == Err::<(), DriverError>(
            DriverError::DriverNotBound,
        ) && *final(device) == *old(device),
        old(device).driver == Some(driver.id) && old(device).state != DeviceState::Ready ==> r
            == Err::<(), DriverError>(
            DriverError::InvalidState { expected: DeviceState::Ready, actual: old(device).state },
        ) && *final(device) == *old(device),
        old(device).driver == Some(driver.id) && old(device).state == DeviceState::Ready && (
        driver.ops is None || driver.ops.unwrap().suspend is None) ==> r == Err::<(), DriverError>(
            DriverError::Unsupported,
        ) && *final(device) == *old(device),
        r is Ok ==> final(device).state == DeviceState::Suspended,
        old(device).driver == Some(driver.id) && old(device).state == DeviceState::Ready ==> match driver.ops {
            Some(ops) => match ops.suspend {
                Some(callback) => match callback.fixed_outcome() {
                    Some(outcome) => step_finished(*old(device), DeviceState::Suspended, outcome, r, *final(device)),
                    None => true,
                },
                None => true,
            },
            None => true,
        },
{
    if device.bound_driver() != Some(driver.id) {
        return Err(DriverError::DriverNotBound);
    }
    if device.state != DeviceState::Ready {
        return Err(DriverError::InvalidState { expected: DeviceState::Ready, actual: device.state });
    }
    match &driver.ops {
        None => Err(DriverError::Unsupported),
        Some(ops) => match &ops.suspend {
            None => Err(DriverError::Unsupported),
            Some(callback) => {
                let outcome = callback.call(trace, device);
                finish_step(trace, device, TraceOp::Suspend, driver.id, outcome, DeviceState::Suspended)
            },
        },
    }
}

/// Resumes a suspended device through its bound driver's resume callback.
pub fn resume<C: DeviceCallback>(trace: &mut Trace, device: &mut Device, driver: &Driver<C>) -> (r:
    Result<(), DriverError>)
    requires
        old(trace).wf(),
    ensures
        final(trace).wf(),
        old(device).driver != Some(driver.id) ==> r == Err::<(), DriverError>(
            DriverError::DriverNotBound,
        ) && *final(device) == *old(device),
        old(device).driver == Some(driver.id) && old(device).state != DeviceState::Suspended ==> r
            == Err::<(), DriverError>(
            DriverError::InvalidState { expected: DeviceState::Suspended, actual: old(device).state },
        ) && *final(device) == *old(device),
        old(device).driver == Some(driver.id) && old(device).state == DeviceState::Suspended && (
        driver.ops is None || driver.ops.unwrap().resume is None) ==> r == Err::<(), DriverError>(
            DriverError::Unsupported,
        ) && *final(device) == *old(device),
        r is Ok ==> final(device).state == DeviceState::Ready,
        old(device).driver == Some(driver.id) && old(device).state == DeviceState::Suspended ==> match driver.ops {
            Some(ops) => match ops.resume {
                Some(callback) => match callback.fixed_outcome() {
                    Some(outcome) => step_finished(*old(device), DeviceState::Ready, outcome, r, *final(device)),
                    None => true,
                },
                None => true,
            },
            None => true,
        },
{
    if device.bound_driver() != Some(driver.id) {
        return Err(DriverError::DriverNotBound);
    }
    if device.state != DeviceState::Suspended {
        return Err(DriverError::InvalidState { expected: DeviceState::Suspended, actual: device.state });
    }
    match &driver.ops {
        None => Err(DriverError::Unsupported),
        Some(ops) => match &ops.resume {
            None => Err(DriverError::Unsupported),
            Some(callback) => {
                let outcome = callback.call(trace, device);
                finish_step(trace, device, TraceOp::Resume, driver.id, outcome, DeviceState::Ready)
            },
        },
    }
}

/// Quiesces a ready or suspended device; the driver's quiesce callback runs if it
/// has one.
pub fn quiesce<C: DeviceCallback>(trace: &mut Trace, device: &mut Device, driver: &Driver<C>) -> (r:
    Result<(), DriverError>)
    requires
        old(trace).wf(),
    ensures
        final(trace).wf(),
        old(device).driver != Some(driver.id) ==> r == Err::<(), DriverError>(
            DriverError::DriverNotBound,
        ) && *final(device) == *old(device),
        old(device).driver == Some(driver.id) && old(device).state != DeviceState::Ready && old(device).state != DeviceState::Suspended ==> r == Err::<(), DriverError>(
            DriverError::InvalidState { expected: DeviceState::Ready, actual: old(device).state },
        ) && *final(device) == *old(device),
        old(device).driver == Some(driver.id) && (old(device).state == DeviceState::Ready || old(device).state == DeviceState::Suspended) && driver.ops is None ==> r == Err::<(), DriverError>(
            DriverError::Unsupported,
        ) && *final(device) == *old(device),
        old(device).driver == Some(driver.id) && (old(device).state == DeviceState::Ready || old(device).state == DeviceState::Suspended) && driver.ops is Some && driver.ops.unwrap().quiesce is None
            ==> r is Ok && *final(device) == (Device {
            state: DeviceState::Quiescing,
            ..*old(device)
        }),
        r is Ok ==> final(device).state == DeviceState::Quiescing,
        old(device).driver == Some(driver.id) && (old(device).state == DeviceState::Ready || old(device).state
            == DeviceState::Suspended) ==> match driver.ops {
            Some(ops) => match ops.quiesce {
                Some(callback) => match callback.fixed_outcome() {
                    Some(outcome) => step_finished(*old(device), DeviceState::Quiescing, outcome, r, *final(device)),
                    None => true,
                },
                None => true,
            },
            None => true,
        },
{
    if device.bound_driver() != Some(driver.id) {
        return Err(DriverError::DriverNotBound);
    }
    if !(device.state == DeviceState::Ready || device.state == DeviceState::Suspended) {
        return Err(DriverError::InvalidState { expected: DeviceState::Ready, actual: device.state });
    }
    match &driver.ops {
        None => Err(DriverError::Unsupported),
        Some(ops) => {
            let outcome = match &ops.quiesce {
                None => Ok(()),
                Some(callback) => callback.call(trace, device),
            };
            finish_step(trace, device, TraceOp::Quiesce, driver.id, outcome, DeviceState::Quiescing)
        },
    }
}


/// Completes a removal once the driver's remove callback answered `outcome`: a
/// failure marks the device failed; success withdraws it, unbinds the driver, marks
/// it removed and gives back its resources.
pub fn finish_remove(
    trace: &mut Trace,
    device: &mut Device,
    driver: DriverId,
    outcome: Result<(), DriverError>,
) -> (r: Result<(), DriverError>)
    requires
        old(trace).wf(),
    ensures
        final(trace).wf(),
        outcome is Err ==> r == outcome && *final(device) == (Device {
            state: failed_or_same(old(device).state),
            ..*old(device)
        }),
        outcome is Ok && old(device).driver is None ==> r == Err::<(), DriverError>(
            DriverError::DriverNotBound,
        ) && *final(device) == (Device { published: false, ..*old(device) }),
        outcome is Ok && old(device).driver is Some && !valid_transition(
            old(device).state,
            DeviceState::Removed,
        ) ==> r == Err::<(), DriverError>(
            DriverError::InvalidState { expected: DeviceState::Removed, actual: old(device).state },
        ) && *final(device) == (Device { published: false, driver: None, ..*old(device) }),
        outcome is Ok && old(device).driver is Some && valid_transition(
            old(device).state,
            DeviceState::Removed,
        ) ==> r is Ok && *final(device) == (Device {
            state: DeviceState::Removed,
            published: false,
            driver: None,
            resources: final(device).resources,
            ..*old(device)
        }) && final(device).resources@ == Seq::<Resource>::empty(),
{
    match outcome {
        Err(error) => {
            let _ = device.transition(DeviceState::Failed);
            trace_event(trace, TraceOp::Remove, device, Some(driver), false);
            return Err(error);
        },
        Ok(()) => {},
    }
    if device.is_published() {
        match device.unpublish() {
            Err(e) => return Err(e),
            Ok(()) => {},
        }
    }
    match device.unbind_driver() {
        Err(e) => return Err(e),
        Ok(_) => {},
    }
    match device.transition(DeviceState::Removed) {
        Err(e) => return Err(e),
        Ok(()) => {},
    }
    let result = device.release_resources(trace);
    trace_event(trace, TraceOp::Remove, device, Some(driver), result.is_ok());
    result
}

/// Removes a quiescing device through its bound driver's remove callback.
pub fn remove<C: DeviceCallback>(trace: &mut Trace, device: &mut Device, driver: &Driver<C>) -> (r:
    Result<(), DriverError>)
    requires
        old(trace).wf(),
    ensures
        final(trace).wf(),
        old(device).driver != Some(driver.id) ==> r == Err::<(), DriverError>(
            DriverError::DriverNotBound,
        ) && *final(device) == *old(device),
        old(device).driver == Some(driver.id) && old(device).state != DeviceState::Quiescing ==> r
            == Err::<(), DriverError>(
            DriverError::InvalidState { expected: DeviceState::Quiescing, actual: old(device).state },
        ) && *final(device) == *old(device),
        old(device).driver == Some(driver.id) && old(device).state == DeviceState::Quiescing
            && driver.ops is None ==> r == Err::<(), DriverError>(DriverError::Unsupported)
            && *final(device) == *old(device),
        r is Ok ==> final(device).state == DeviceState::Removed && final(device).driver is None
            && !final(device).published && final(device).resources@ == Seq::<Resource>::empty(),
        old(device).driver == Some(driver.id) && old(device).state == DeviceState::Quiescing ==> match driver.ops {
            Some(ops) => match ops.remove.fixed_outcome() {
                Some(Err(e)) => r == Err::<(), DriverError>(e) && *final(device) == (Device {
                    state: failed_or_same(old(device).state),
                    ..*old(device)
                }),
                Some(Ok(())) => valid_transition(DeviceState::Quiescing, DeviceState::Removed) ==> r is Ok
                    && *final(device) == (Device {
                    state: DeviceState::Removed,
                    published: false,
                    driver: None,
                    resources: final(device).resources,
                    ..*old(device)
                }) && final(device).resources@ == Seq::<Resource>::empty(),
                None => true,
            },
            None => true,
        },
{
    if device.bound_driver() != Some(driver.id) {
        return Err(DriverError::DriverNotBound);
    }
    if device.state != DeviceState::Quiescing {
        return Err(DriverError::InvalidState { expected: DeviceState::Quiescing, actual: device.state });
    }
    match &driver.ops {
        None => Err(DriverError::Unsupported),
        Some(ops) => {
            let outcome = ops.remove.call(trace, device);
            finish_remove(trace, device, driver.id, outcome)
        },
    }
}

/// Takes a quiescing or failed device away from its bound driver without asking the
/// driver: withdrawn, unbound, removed, resources given back.
pub fn revoke<C>(trace: &mut Trace, device: &mut Device, driver: &Driver<C>) -> (r: Result<
    (),
    DriverError,
>)
    requires
        old(trace).wf(),
    ensures
        final(trace).wf(),
        old(device).driver != Some(driver.id) ==> r == Err::<(), DriverError>(
            DriverError::DriverNotBound,
        ) && *final(device) == *old(device),
        old(device).driver == Some(driver.id) && old(device).state != DeviceState::Quiescing && old(device).state != DeviceState::Failed ==> r == Err::<(), DriverError>(
            DriverError::InvalidState { expected: DeviceState::Quiescing, actual: old(device).state },
        ) && *final(device) == *old(device),
        old(device).driver == Some(driver.id) && (old(device).state == DeviceState::Quiescing || old(device).state == DeviceState::Failed) ==> r is Ok && *final(device) == (Device {
            state: DeviceState::Removed,
            published: false,
            driver: None,
            resources: final(device).resources,
            ..*old(device)
        }) && final(device).resources@ == Seq::<Resource>::empty(),
{
    if device.bound_driver() != Some(driver.id) {
        return Err(DriverError::DriverNotBound);
    }
    if !(device.state == DeviceState::Quiescing || device.state == DeviceState::Failed) {
        return Err(DriverError::InvalidState { expected: DeviceState::Quiescing, actual: device.state });
    }
    if device.is_published() {
        match device.unpublish() {
            Err(e) => return Err(e),
            Ok(()) => {},
        }
    }
    match device.unbind_driver() {
        Err(e) => return Err(e),
        Ok(_) => {},
    }
    if device.state != DeviceState::Removed {
        match device.transition(DeviceState::Removed) {
            Err(e) => return Err(e),
            Ok(()) => {},
        }
    }
    let result = device.release_resources(trace);
    trace_event(trace, TraceOp::Revoke, device, Some(driver.id), result.is_ok());
    result
}

/// Quiesces then removes a device that went away.
pub fn hot_unplug<C: DeviceCallback>(
    trace: &mut Trace,
    device: &mut Device,
    driver: &Driver<C>,
) -> (r: Result<(), DriverError>)
    requires
        old(trace).wf(),
    ensures
        final(trace).wf(),
        old(device).driver != Some(driver.id) ==> r == Err::<(), DriverError>(
            DriverError::DriverNotBound,
        ) && *final(device) == *old(device),
        old(device).driver == Some(driver.id) && old(device).state != DeviceState::Ready && old(device).state != DeviceState::Suspended ==> r == Err::<(), DriverError>(
            DriverError::InvalidState { expected: DeviceState::Ready, actual: old(device).state },
        ) && *final(device) == *old(device),
        old(device).driver == Some(driver.id) && (old(device).state == DeviceState::Ready || old(device).state == DeviceState::Suspended) && driver.ops is None ==> r == Err::<(), DriverError>(
            DriverError::Unsupported,
        ) && *final(device) == *old(device),
        r is Ok ==> final(device).state == DeviceState::Removed && final(device).driver is None
            && !final(device).published && final(device).resources@ == Seq::<Resource>::empty(),
        old(device).driver == Some(driver.id) && (old(device).state == DeviceState::Ready || old(device).state
            == DeviceState::Suspended) ==> match driver.ops {
            Some(ops) => (match ops.quiesce {
                Some(callback) => callback.fixed_outcome() == Some(Ok::<(), DriverError>(())),
                None => true,
            }) && ops.remove.fixed_outcome() == Some(Ok::<(), DriverError>(())) ==> r is Ok,
            None => true,
        },
{
    match quiesce(trace, device, driver) {
        Err(e) => return Err(e),
        Ok(()) => {},
    }
    let result = remove(trace, device, driver);
    trace_event(trace, TraceOp::HotUnplug, device, Some(driver.id), result.is_ok());
    result
}

/// A rebind whose callbacks all succeed: `device` is bound to `old_driver` and ready or
/// suspended, the old driver quiesces (or has nothing to do) and removes without
/// complaint, and the new driver matches the device and probes it successfully.
pub open spec fn clean_rebind<C: DeviceCallback>(device: Device, old_driver: Driver<C>, new_driver: Driver<C>) -> bool {
    &&& device.driver == Some(old_driver.id)
    &&& device.state == DeviceState::Ready || device.state == DeviceState::Suspended
    &&& driver_matches(new_driver, device)
    &&& match old_driver.ops {
        Some(ops) => (match ops.quiesce {
            Some(callback) => callback.fixed_outcome() == Some(Ok::<(), DriverError>(())),
            None => true,
        }) && ops.remove.fixed_outcome() == Some(Ok::<(), DriverError>(())),
        None => false,
    }
    &&& match new_driver.ops {
        Some(ops) => ops.probe.fixed_outcome() == Some(Ok::<(), DriverError>(())),
        None => false,
    }
}

/// Moves a device from its bound driver to `new_driver`: quiesce, remove, probe.
pub fn rebind<C: DeviceCallback>(
    trace: &mut Trace,
    device: &mut Device,
    old_driver: &Driver<C>,
    new_driver: &Driver<C>,
) -> (r: Result<(), DriverError>)
    requires
        old(trace).wf(),
    ensures
        final(trace).wf(),
        old(device).driver != Some(old_driver.id) ==> r == Err::<(), DriverError>(
            DriverError::DriverNotBound,
        ) && *final(device) == *old(device),
        r is Ok ==> final(device).state == DeviceState::Ready && final(device).driver == Some(
            new_driver.id,
        ),
        clean_rebind(*old(device), *old_driver, *new_driver) ==> r is Ok && final(device).state
            == DeviceState::Ready && final(device).driver == Some(new_driver.id) && !final(device).published
            && final(device).resources@ == Seq::<Resource>::empty(),
{
    if device.bound_driver() != Some(old_driver.id) {
        return Err(DriverError::DriverNotBound);
    }
    match quiesce(trace, device, old_driver) {
        Err(e) => return Err(e),
        Ok(()) => {},
    }
    match remove(trace, device, old_driver) {
        Err(e) => return Err(e),
        Ok(()) => {},
    }
    let result = probe(trace, device, new_driver);
    trace_event(trace, TraceOp::Rebind, device, Some(new_driver.id), result.is_ok());
    result
}

#[derive(Clone, Copy, Debug)]
pub struct DriverStatus<C> {
    pub driver: Driver<C>,
    pub state: DeviceState,
}

/// The registered drivers, in registration order, at most `MAX_DRIVERS`.
pub struct Registry<C> {
    drivers: Vec<DriverStatus<C>>,
}

impl<C: Copy> Registry<C> {
    pub closed spec fn view(&self) -> Seq<DriverStatus<C>> {
        self.drivers@
    }

    pub fn new() -> (r: Self)
        ensures
            r@ == Seq::<DriverStatus<C>>::empty(),
    {
        Registry { drivers: Vec::new() }
    }

    /// Forgets every registration.
    pub fn clear(&mut self)
        ensures
            final(self)@ == Seq::<DriverStatus<C>>::empty(),
    {
        self.drivers = Vec::new();
    }

    /// Registers `driver` with its state, unless `MAX_DRIVERS` are registered already.
    pub fn register(&mut self, driver: Driver<C>, state: DeviceState) -> (r: bool)
        ensures
            r == (old(self)@.len() < MAX_DRIVERS),
            r ==> final(self)@ == old(self)@.push(DriverStatus { driver, state }),
            !r ==> final(self)@ == old(self)@,
    {
        if self.drivers.len() >= MAX_DRIVERS {
            return false;
        }
        self.drivers.push(DriverStatus { driver, state });
        true
    }

    pub fn list(&self) -> (r: Vec<DriverStatus<C>>)
        ensures
            r@ == self@,
    {
        let mut out: Vec<DriverStatus<C>> = Vec::new();
        let mut i: usize = 0;
        while i < self.drivers.len()
            invariant
                i <= self.drivers@.len(),
                out@ == self.drivers@.take(i as int),
            decreases self.drivers@.len() - i,
        {
            out.push(self.drivers[i]);
            assert(out@ == self.drivers@.take(i + 1));
            i = i + 1;
        }
        assert(self.drivers@.take(i as int) == self.drivers@);
        out
    }
}

/// A fresh registry and an empty lifecycle log.
pub fn init<C: Copy>() -> (r: (Registry<C>, Trace))
    ensures
        r.0@ == Seq::<DriverStatus<C>>::empty(),
        r.1.wf(),
        r.1@ == Seq::<TraceEvent>::empty(),
{
    (Registry::new(), Trace::new())
}

pub open spec fn spec_class_name(class: Class) -> &'static str {
    match class {
        Class::Display => "display",
        Class::Serial => "serial",
        Class::Block => "block",
        Class::Input => "input",
        Class::UsbHost => "usb-host",
        Class::Audio => "audio",
        Class::Network => "network",
    }
}

pub fn class_name(class: Class) -> (r: &'static str)
    ensures
        r == spec_class_name(class),
{
    match class {
        Class::Display => "display",
        Class::Serial => "serial",
        Class::Block => "block",
        Class::Input => "input",
        Class::UsbHost => "usb-host",
        Class::Audio => "audio",
        Class::Network => "network",
    }
}

pub open spec fn spec_bus_name(bus: BusKind) -> &'static str {
    match bus {
        BusKind::Platform => "platform",
        BusKind::Pci => "pci",
        BusKind::Virtio => "virtio",
        BusKind::Usb => "usb",
        BusKind::Ps2 => "ps2",
    }
}

pub fn bus_name(bus: BusKind) -> (r: &'static str)
    ensures
        r == spec_bus_name(bus),
{
    match bus {
        BusKind::Platform => "platform",
        BusKind::Pci => "pci",
        BusKind::Virtio => "virtio",
        BusKind::Usb => "usb",
        BusKind::Ps2 => "ps2",
    }
}

pub fn stage_name(stage: DriverStage) -> (r: &'static str)
    ensures
        r == (match stage {
            DriverStage::Early => "early",
            DriverStage::Runtime => "runtime",
        }),
{
    match stage {
        DriverStage::Early => "early",
        DriverStage::Runtime => "runtime",
    }
}

pub open spec fn spec_state_name(state: DeviceState) -> &'static str {
    match state {
        DeviceState::Discovered => "discovered",
        DeviceState::Probing => "probing",
        DeviceState::Ready => "ready",
        DeviceState::Suspended => "suspended",
        DeviceState::Deferred => "deferred",
        DeviceState::Unsupported => "unsupported",
        DeviceState::Busy => "busy",
        DeviceState::Quiescing => "quiescing",
        DeviceState::Removed => "removed",
        DeviceState::Failed => "failed",
    }
}

pub fn state_name(state: DeviceState) -> (r: &'static str)
    ensures
        r == spec_state_name(state),
{
    match state {
        DeviceState::Discovered => "discovered",
        DeviceState::Probing => "probing",
        DeviceState::Ready => "ready",
        DeviceState::Suspended => "suspended",
        DeviceState::Deferred => "deferred",
        DeviceState::Unsupported => "unsupported",
        DeviceState::Busy => "busy",
        DeviceState::Quiescing => "quiescing",
        DeviceState::Removed => "removed",
        DeviceState::Failed => "failed",
    }
}


#[derive(Clone, Copy, Debug, PartialEq, Eq, Structural)]
pub struct MatrixReport {
    pub scenarios: usize,
    pub passed: usize,
}

/// Runs one device's whole life through the framework and checks each step: discovery
/// on its bus, matching, four resources accepted and two refused, a device-bound check
/// of a buffer the device writes, probing, publishing, suspend and resume, quiescing and
/// removal; a rebind of a published device to another driver; a failed probe that gives
/// back its resources; and probes answered unsupported, deferred and busy.
pub fn contract_self_check() -> (r: bool)
    ensures
        r,
{
    let mut trace = Trace::new();
    let mut bus = Bus::new(1, "platform", BusKind::Platform);
    let mut device = Device::new(1, bus.id, bus.kind, "contract-test", Class::Serial);
    let ok = FixedOutcome(Ok(()));
    let driver = Driver::with_ops(
        1,
        "contract-test",
        Class::Serial,
        BusKind::Platform,
        DriverOps { probe: ok, suspend: Some(ok), resume: Some(ok), quiesce: Some(ok), remove: ok },
    );
    if discover(&mut trace, &mut bus, &mut device).is_err() {
        return false;
    }
    if bus.devices().len() != 1 || !match_driver(&mut trace, &driver, &device) {
        return false;
    }
    let owner = device.id;
    if device.add_resource(&mut trace, Resource::Mmio { base: 0x1000, size: 0x1000, owner }).is_err() {
        return false;
    }
    if device.add_resource(&mut trace, Resource::Pio { base: 0x3f8, size: 8, owner }).is_err() {
        return false;
    }
    if device.add_resource(&mut trace, Resource::Irq(Irq { kind: IrqKind::Legacy, line: 4, owner })).is_err() {
        return false;
    }
    let shared = DmaBuffer {
        physical: PhysAddr(0x1000),
        virtual_address: VirtAddr(0x4000_1000),
        length: 4096,
        alignment: 4096,
        direction: DmaDirection::Bidirectional,
        owner,
    };
    proof {
        reveal_with_fuel(crate::address::is_pow2, 14);
        assert(crate::address::is_pow2(4096));
        assert(dma_check(shared) is Ok);
        assert(resource_check(Resource::Dma(shared)) is Ok);
        assert(device.resource_list().len() == 3);
    }
    if device.add_resource(&mut trace, Resource::Dma(shared)).is_err() {
        return false;
    }
    let from_device = DmaBuffer {
        physical: PhysAddr(0x2000),
        virtual_address: VirtAddr(0x4000_2000),
        length: 4096,
        alignment: 4096,
        direction: DmaDirection::FromDevice,
        owner,
    };
    match from_device.check_for_device() {
        Err(DriverError::InvalidDmaDirection) => {},
        _ => return false,
    }
    if device.resources().len() != 4 {
        return false;
    }
    let mut invalid = Device::new(7, bus.id, bus.kind, "invalid-resources", Class::Serial);
    let invalid_owner = invalid.id;
    match invalid.add_resource(&mut trace, Resource::Mmio { base: u64::MAX, size: 2, owner: invalid_owner }) {
        Err(DriverError::InvalidResourceRange) => {},
        _ => return false,
    }
    let misaligned = DmaBuffer {
        physical: PhysAddr(3),
        virtual_address: VirtAddr(0x1003),
        length: 16,
        alignment: 4,
        direction: DmaDirection::ToDevice,
        owner: invalid_owner,
    };
    match invalid.add_resource(&mut trace, Resource::Dma(misaligned)) {
        Err(DriverError::InvalidAlignment) => {},
        _ => return false,
    }
    if probe(&mut trace, &mut device, &driver).is_err() || publish(&mut trace, &mut device).is_err()
        || !device.is_published() {
        return false;
    }
    if suspend(&mut trace, &mut device, &driver).is_err() || resume(&mut trace, &mut device, &driver).is_err() {
        return false;
    }
    if quiesce(&mut trace, &mut device, &driver).is_err() || remove(&mut trace, &mut device, &driver).is_err() {
        return false;
    }
    if device.resources().len() != 0 {
        return false;
    }
    let new_driver = Driver::with_ops(
        2,
        "contract-test-rebind",
        Class::Serial,
        BusKind::Platform,
        DriverOps { probe: ok, suspend: None, resume: None, quiesce: None, remove: ok },
    );
    let mut rebound = Device::new(2, bus.id, bus.kind, "rebind-test", Class::Serial);
    if discover(&mut trace, &mut bus, &mut rebound).is_err() || probe(&mut trace, &mut rebound, &driver).is_err()
        || publish(&mut trace, &mut rebound).is_err() {
        return false;
    }
    if rebind(&mut trace, &mut rebound, &driver, &new_driver).is_err() || rebound.state != DeviceState::Ready {
        return false;
    }
    let failing = Driver::with_ops(
        3,
        "contract-test-fail",
        Class::Serial,
        BusKind::Platform,
        DriverOps { probe: FixedOutcome(Err(DriverError::ProbeFailed)), suspend: None, resume: None, quiesce: None, remove: ok },
    );
    let mut failed = Device::new(3, bus.id, bus.kind, "failed-test", Class::Serial);
    if discover(&mut trace, &mut bus, &mut failed).is_err() {
        return false;
    }
    let failed_owner = failed.id;
    if failed.add_resource(&mut trace, Resource::Pio { base: 0x3f8, size: 8, owner: failed_owner }).is_err() {
        return false;
    }
    match probe(&mut trace, &mut failed, &failing) {
        Err(DriverError::ProbeFailed) => {},
        _ => return false,
    }
    if failed.state != DeviceState::Failed || failed.resources().len() != 0 {
        return false;
    }
    probe_status_holds(
        &mut trace,
        &mut bus,
        4,
        "unsupported-test",
        Err(DriverError::Unsupported),
        DeviceState::Unsupported,
        DriverError::Unsupported,
    ) && probe_status_holds(
        &mut trace,
        &mut bus,
        5,
        "deferred-test",
        Err(DriverError::Deferred),
        DeviceState::Deferred,
        DriverError::Deferred,
    ) && probe_status_holds(&mut trace, &mut bus, 6, "busy-test", Err(DriverError::Busy), DeviceState::Busy, DriverError::Busy)
}

/// Probes a fresh device holding one port range with a probe callback that answers
/// `outcome`, and reports whether the probe failed with `expected_error`, left the
/// device in `expected_state` and gave its resources back.
fn probe_status_holds(
    trace: &mut Trace,
    bus: &mut Bus,
    id: DeviceId,
    name: &'static str,
    outcome: Result<(), DriverError>,
    expected_state: DeviceState,
    expected_error: DriverError,
) -> (r: bool)
    requires
        old(trace).wf(),
    ensures
        final(trace).wf(),
        final(bus).id == old(bus).id && final(bus).kind == old(bus).kind,
        final(bus).devices@.len() <= old(bus).devices@.len() + 1,
        old(bus).kind == BusKind::Platform && old(bus).devices@.len() < MAX_DEVICES_PER_BUS ==> r == (match outcome {
            Err(e) => e == expected_error && error_state(e) == expected_state,
            Ok(()) => false,
        }),
{
    let mut device = Device::new(id, bus.id, bus.kind, name, Class::Serial);
    let driver = Driver::with_ops(
        id,
        name,
        Class::Serial,
        BusKind::Platform,
        DriverOps {
            probe: FixedOutcome(outcome),
            suspend: None,
            resume: None,
            quiesce: None,
            remove: FixedOutcome(Ok(())),
        },
    );
    if discover(trace, bus, &mut device).is_err() {
        return false;
    }
    let owner = device.id;
    if device.add_resource(trace, Resource::Pio { base: 0x3f8, size: 8, owner }).is_err() {
        return false;
    }
    let failed_as_expected = match probe(trace, &mut device, &driver) {
        Err(error) => error == expected_error,
        Ok(()) => false,
    };
    failed_as_expected && device.state == expected_state && device.resources.len() == 0
}

/// Runs the lifecycle scenarios the framework promises: probe failures that settle
/// the device in the right state and give back its resources, and a hot unplug of a
/// published device.
pub fn matrix_self_check() -> (r: MatrixReport)
    ensures
        r.scenarios == 5,
        r.passed == r.scenarios,
{
    let mut trace = Trace::new();
    let mut bus = Bus::new(90, "matrix", BusKind::Platform);
    let mut passed: usize = 0;
    if probe_status_holds(
        &mut trace,
        &mut bus,
        90,
        "matrix-absent",
        Err(DriverError::DeviceAbsent),
        DeviceState::Unsupported,
        DriverError::DeviceAbsent,
    ) {
        passed = passed + 1;
    }
    if probe_status_holds(
        &mut trace,
        &mut bus,
        91,
        "matrix-timeout",
        Err(DriverError::Timeout),
        DeviceState::Failed,
        DriverError::Timeout,
    ) {
        passed = passed + 1;
    }
    if probe_status_holds(
        &mut trace,
        &mut bus,
        92,
        "matrix-malformed",
        Err(DriverError::MalformedDescriptor),
        DeviceState::Failed,
        DriverError::MalformedDescriptor,
    ) {
        passed = passed + 1;
    }
    if probe_status_holds(
        &mut trace,
        &mut bus,
        93,
        "matrix-dma-failure",
        Err(DriverError::DmaFailure),
        DeviceState::Failed,
        DriverError::DmaFailure,
    ) {
        passed = passed + 1;
    }
    let mut device = Device::new(94, bus.id, bus.kind, "matrix-hot-unplug", Class::Serial);
    let driver = Driver::with_ops(
        94,
        "matrix-hot-unplug",
        Class::Serial,
        BusKind::Platform,
        DriverOps {
            probe: FixedOutcome(Ok(())),
            suspend: None,
            resume: None,
            quiesce: None,
            remove: FixedOutcome(Ok(())),
        },
    );
    let owner = device.id;
    let hot_unplug_passed = discover(&mut trace, &mut bus, &mut device).is_ok()
        && device.add_resource(&mut trace, Resource::Pio { base: 0x3f8, size: 8, owner }).is_ok()
        && probe(&mut trace, &mut device, &driver).is_ok() && publish(&mut trace, &mut device).is_ok()
        && hot_unplug(&mut trace, &mut device, &driver).is_ok() && device.state
        == DeviceState::Removed && device.resources.len() == 0;
    if hot_unplug_passed {
        passed = passed + 1;
    }
    MatrixReport { scenarios: 5, passed }
}

/// Suspending a ready device and then resuming it, with both callbacks answering
/// success, succeeds twice and gives the device back exactly as it was.
pub proof fn law_suspend_then_resume(
    ready: Device,
    suspended: Device,
    resumed: Device,
    r_suspend: Result<(), DriverError>,
    r_resume: Result<(), DriverError>,
)
    requires
        ready.state == DeviceState::Ready,
        step_finished(ready, DeviceState::Suspended, Ok(()), r_suspend, suspended),
        step_finished(suspended, DeviceState::Ready, Ok(()), r_resume, resumed),
    ensures
        r_suspend is Ok,
        suspended.state == DeviceState::Suspended,
        r_resume is Ok,
        resumed == ready,
{
}

} // verus!
