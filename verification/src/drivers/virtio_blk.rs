use vstd::prelude::*;
use crate::drivers::pci::{Bar, ConfigSpace, Device};

verus! {

pub const VIRTIO_BLK_CLASS: u32 = 0x0001_0000;
pub const VIRTIO_VENDOR: u16 = 0x1af4;
pub const PAGE_SIZE: usize = 4096;
pub const SECTOR_SIZE: usize = 512;
pub const QUEUE_PAGES: usize = 3;
pub const MAX_QUEUE_SIZE: u16 = 8;
pub const DESC_NEXT: u16 = 1;
pub const DESC_WRITE: u16 = 2;
pub const PCI_CAP_ID_VENDOR: u8 = 0x09;
pub const PCI_CAP_COMMON_CFG: u8 = 1;
pub const PCI_CAP_NOTIFY_CFG: u8 = 2;
pub const PCI_CAP_DEVICE_CFG: u8 = 4;
pub const VIRTIO_F_VERSION_1: u64 = 0x1_0000_0000;
pub const VIRTIO_BLK_F_RO: u64 = 0x20;
pub const VIRTIO_BLK_F_FLUSH: u64 = 0x200;
pub const COMMON_MIN_SIZE: usize = 0x38;
pub const STATUS_ACKNOWLEDGE: u8 = 1;
pub const STATUS_DRIVER: u8 = 2;
pub const STATUS_DRIVER_OK: u8 = 4;
pub const STATUS_FEATURES_OK: u8 = 8;
pub const STATUS_DEVICE_NEEDS_RESET: u8 = 0x40;
pub const STATUS_FAILED: u8 = 0x80;
pub const REQUEST_IN: u32 = 0;
pub const REQUEST_OUT: u32 = 1;
pub const REQUEST_FLUSH: u32 = 4;
pub const REQUEST_HEADER_SIZE: usize = 16;

#[derive(Clone, Copy, Debug, PartialEq, Eq, Structural)]
pub enum Error {
    InvalidPciBar,
    PciCommand,
    Device,
    InvalidQueue,
    DmaUnavailable,
    AddressTooWide,
    Timeout,
    InvalidCapability,
    UnsupportedFeatures,
    FlushUnsupported,
    FeaturesRejected,
    InvalidUsedDescriptor(u32),
    InvalidUsedLength(u32),
    InvalidUsedCount(u16),
    InvalidRequestStatus(u8),
    RequestFailed(u8),
    DeviceState(u8),
    InvalidCapacity,
    OutOfRange,
    Busy,
    NotReady,
}

#[derive(Clone, Copy, Debug, PartialEq, Eq, Structural)]
pub struct Status {
    pub bus: u8,
    pub slot: u8,
    pub function: u8,
    pub vendor: u16,
    pub device: u16,
    pub capacity_sectors: u64,
    pub sectors: u64,
    pub read_only: bool,
    pub queue_size: u16,
    pub flush: bool,
    pub device_status: u8,
}

#[derive(Clone, Copy, Debug, PartialEq, Eq, Structural)]
pub enum InitResult {
    Ready(Status),
    Unsupported,
    Failed(Error),
}

#[derive(Clone, Copy, Debug, PartialEq, Eq, Structural)]
pub enum Operation {
    Read,
    Write,
    Flush,
}

impl Operation {
    pub fn request_type(self) -> (r: u32)
        ensures
            r == (match self {
                Operation::Read => REQUEST_IN,
                Operation::Write => REQUEST_OUT,
                Operation::Flush => REQUEST_FLUSH,
            }),
    {
        match self {
            Operation::Read => REQUEST_IN,
            Operation::Write => REQUEST_OUT,
            Operation::Flush => REQUEST_FLUSH,
        }
    }

    /// Reads and writes carry a sector; a flush carries none.
    pub fn has_data(self) -> (r: bool)
        ensures
            r == !(self is Flush),
    {
        match self {
            Operation::Flush => false,
            _ => true,
        }
    }

    /// The device writes the data buffer only for a read.
    pub fn data_is_writable(self) -> (r: bool)
        ensures
            r == (self is Read),
    {
        match self {
            Operation::Read => true,
            _ => false,
        }
    }

    /// The bytes the device reports written: the sector and the status byte for a read,
    /// the status byte otherwise.
    pub fn expected_used_length(self) -> (r: u32)
        ensures
            r == (if self is Read { (SECTOR_SIZE + 1) as u32 } else { 1u32 }),
    {
        match self {
            Operation::Read => (SECTOR_SIZE + 1) as u32,
            _ => 1,
        }
    }
}

/// The sizes of a split virtqueue of `queue_size` entries: where the available ring
/// starts, where the used ring starts (page-aligned), and the total; only power-of-two
/// sizes from 4 to 8 are used.
pub open spec fn layout_of(queue_size: u16) -> Option<(usize, usize, usize)> {
    if queue_size < 4 || queue_size > MAX_QUEUE_SIZE || !(queue_size == 4 || queue_size == 8) {
        None
    } else {
        let available: int = queue_size * 16;
        let available_end: int = available + 4 + queue_size * 2;
        let page: int = PAGE_SIZE as int;
        let used: int = (available_end + page - 1) / page * page;
        Some((available as usize, used as usize, (used + 4 + queue_size * 8) as usize))
    }
}

pub fn queue_layout(queue_size: u16) -> (r: Option<(usize, usize, usize)>)
    ensures
        r == layout_of(queue_size),
{
    if queue_size < 4 || queue_size > MAX_QUEUE_SIZE || !(queue_size == 4 || queue_size == 8) {
        return None;
    }
    let available = queue_size as usize * 16;
    let available_end = available + 4 + queue_size as usize * 2;
    let used = (available_end + PAGE_SIZE - 1) / PAGE_SIZE * PAGE_SIZE;
    Some((available, used, used + 4 + queue_size as usize * 8))
}

/// Checks one used-ring entry: exactly one completion, of descriptor zero, with the
/// expected length.
pub fn validate_used(completed: u16, descriptor: u32, used_length: u32, expected_length: u32, queue_size: u16) -> (r:
    Result<(), Error>)
    ensures
        r == (if completed != 1 {
            Err::<(), Error>(Error::InvalidUsedCount(completed))
        } else if descriptor != 0 || descriptor >= queue_size as u32 {
            Err(Error::InvalidUsedDescriptor(descriptor))
        } else if used_length != expected_length {
            Err(Error::InvalidUsedLength(used_length))
        } else {
            Ok(())
        }),
{
    if completed != 1 {
        return Err(Error::InvalidUsedCount(completed));
    }
    if descriptor != 0 || descriptor >= queue_size as u32 {
        return Err(Error::InvalidUsedDescriptor(descriptor));
    }
    if used_length != expected_length {
        return Err(Error::InvalidUsedLength(used_length));
    }
    Ok(())
}

/// A device status that failed, needs a reset, or is not running refuses requests.
pub fn check_device_status(device_status: u8) -> (r: Result<(), Error>)
    ensures
        r == (if device_status & (STATUS_FAILED | STATUS_DEVICE_NEEDS_RESET) != 0 || device_status
            & STATUS_DRIVER_OK == 0 {
            Err::<(), Error>(Error::DeviceState(device_status))
        } else {
            Ok(())
        }),
{
    if device_status & (STATUS_FAILED | STATUS_DEVICE_NEEDS_RESET) != 0 || device_status & STATUS_DRIVER_OK == 0 {
        return Err(Error::DeviceState(device_status));
    }
    Ok(())
}

/// The device's status read back after feature negotiation: the device must have kept
/// features-ok (else it rejected the features), and must not have failed or asked for a
/// reset.
pub fn check_negotiated_status(status: u8) -> (r: Result<(), Error>)
    ensures
        r == (if status & STATUS_FEATURES_OK == 0 {
            Err::<(), Error>(Error::FeaturesRejected)
        } else if status & (STATUS_FAILED | STATUS_DEVICE_NEEDS_RESET) != 0 {
            Err::<(), Error>(Error::DeviceState(status))
        } else {
            Ok(())
        }),
{
    if status & STATUS_FEATURES_OK == 0 {
        return Err(Error::FeaturesRejected);
    }
    if status & (STATUS_FAILED | STATUS_DEVICE_NEEDS_RESET) != 0 {
        return Err(Error::DeviceState(status));
    }
    Ok(())
}

/// The outcome a request's status byte reports.
pub fn request_status(status: u8) -> (r: Result<(), Error>)
    ensures
        r == (if status == 0 {
            Ok::<(), Error>(())
        } else if status == 1 || status == 2 {
            Err(Error::RequestFailed(status))
        } else {
            Err(Error::InvalidRequestStatus(status))
        }),
{
    if status == 0 {
        Ok(())
    } else if status == 1 || status == 2 {
        Err(Error::RequestFailed(status))
    } else {
        Err(Error::InvalidRequestStatus(status))
    }
}

/// The features the driver accepts from the device's: version 1 is required; read-only
/// and flush are taken when offered. The result is (driver features, read-only, flush).
pub fn negotiate(device_features: u64) -> (r: Result<(u64, bool, bool), Error>)
    ensures
        device_features & VIRTIO_F_VERSION_1 == 0 ==> r == Err::<(u64, bool, bool), Error>(Error::UnsupportedFeatures),
        device_features & VIRTIO_F_VERSION_1 != 0 ==> r == Ok::<(u64, bool, bool), Error>(
            (
                (if device_features & VIRTIO_BLK_F_RO != 0 { VIRTIO_BLK_F_RO } else { 0u64 }) | (if device_features
                    & VIRTIO_BLK_F_FLUSH != 0 {
                    VIRTIO_BLK_F_FLUSH
                } else {
                    0u64
                }),
                device_features & VIRTIO_BLK_F_RO != 0,
                device_features & VIRTIO_BLK_F_FLUSH != 0,
            ),
        ),
{
    if device_features & VIRTIO_F_VERSION_1 == 0 {
        return Err(Error::UnsupportedFeatures);
    }
    let read_only = device_features & VIRTIO_BLK_F_RO != 0;
    let flush = device_features & VIRTIO_BLK_F_FLUSH != 0;
    let driver_features = (if read_only { VIRTIO_BLK_F_RO } else { 0u64 }) | (if flush {
        VIRTIO_BLK_F_FLUSH
    } else {
        0u64
    });
    Ok((driver_features, read_only, flush))
}

/// The queue size to use of what the device offers: at most eight, and a power of two
/// of at least four.
pub fn choose_queue_size(offered: u16) -> (r: Result<u16, Error>)
    ensures
        ({
            let size = if offered < MAX_QUEUE_SIZE { offered } else { MAX_QUEUE_SIZE };
            r == (if size < 4 || !(size == 4 || size == 8) {
                Err::<u16, Error>(Error::InvalidQueue)
            } else {
                Ok(size)
            })
        }),
{
    let size = if offered < MAX_QUEUE_SIZE { offered } else { MAX_QUEUE_SIZE };
    if size < 4 || !(size == 4 || size == 8) {
        return Err(Error::InvalidQueue);
    }
    Ok(size)
}

/// The 16-byte request header: type, reserved word and starting sector.
pub fn request_header(operation: Operation, lba: u64) -> (r: Vec<u8>)
    ensures
        r@.len() == REQUEST_HEADER_SIZE,
        crate::bytes::spec_le_u32(r@, 0) == (match operation {
            Operation::Read => REQUEST_IN,
            Operation::Write => REQUEST_OUT,
            Operation::Flush => REQUEST_FLUSH,
        }),
        crate::bytes::spec_le_u32(r@, 4) == 0,
        crate::bytes::spec_le_u64(r@, 8) == lba,
{
    let mut header = crate::bytes::zeroes(REQUEST_HEADER_SIZE);
    crate::bytes::put_u32(&mut header, 0, operation.request_type());
    crate::bytes::put_u32(&mut header, 4, 0);
    crate::bytes::put_u64(&mut header, 8, lba);
    header
}

/// The descriptor chain of a request: header, sector (device-writable for a read) when
/// there is one, and the device-writable status byte. Each entry is (length, flags,
/// next).
pub fn descriptor_chain(operation: Operation) -> (r: Vec<(u32, u16, u16)>)
    ensures
        operation is Flush ==> r@ == seq![(REQUEST_HEADER_SIZE as u32, DESC_NEXT, 1u16), (1u32, DESC_WRITE, 0u16)],
        !(operation is Flush) ==> r@ == seq![
            (REQUEST_HEADER_SIZE as u32, DESC_NEXT, 1u16),
            (SECTOR_SIZE as u32, DESC_NEXT | (if operation is Read { DESC_WRITE } else { 0u16 }), 2u16),
            (1u32, DESC_WRITE, 0u16),
        ],
{
    let mut chain: Vec<(u32, u16, u16)> = Vec::new();
    chain.push((REQUEST_HEADER_SIZE as u32, DESC_NEXT, 1));
    if operation.has_data() {
        let flags = DESC_NEXT | (if operation.data_is_writable() { DESC_WRITE } else { 0 });
        chain.push((SECTOR_SIZE as u32, flags, 2));
    }
    chain.push((1, DESC_WRITE, 0));
    chain
}

/// The capacity in sectors from the two halves of the configuration, when the
/// configuration generation did not change while they were read.
pub fn capacity_of(before: u8, low: u32, high: u32, after: u8) -> (r: Option<u64>)
    ensures
        r == (if before == after { Some(((high as u64) << 32u64) | low as u64) } else { None::<u64> }),
{
    if before == after {
        Some(((high as u64) << 32u64) | low as u64)
    } else {
        None
    }
}

/// Byte `offset` of configuration space, from the register that holds it.
pub fn config_byte<C: ConfigSpace>(config: &C, device: Device, offset: u8) -> (r: u8)
    ensures
        r == (config.register(device.address, offset & !3u8) >> (8 * (offset & 3u8)) as u32) as u8,
{
    let value = device.read(config, offset & !3u8);
    let lane = offset & 3;
    assert(lane < 4) by (bit_vector)
        requires
            lane == offset & 3,
    ;
    (value >> ((lane as u32) * 8)) as u8
}

/// A register block a virtio capability points at: its address, length and, for the
/// notification block, the notify-offset multiplier.
#[derive(Clone, Copy, Debug, PartialEq, Eq, Structural)]
pub struct CapRegion {
    pub base: u64,
    pub length: u32,
    pub multiplier: u32,
}

/// The least register-block length of each capability type the driver uses.
pub open spec fn region_minimum(kind: u8) -> Option<int> {
    if kind == PCI_CAP_COMMON_CFG {
        Some(COMMON_MIN_SIZE as int)
    } else if kind == PCI_CAP_NOTIFY_CFG {
        Some(2)
    } else if kind == PCI_CAP_DEVICE_CFG {
        Some(8)
    } else {
        None
    }
}

/// Walks the capability list for the vendor capability of type `requested`: each entry
/// must lie in the device-specific area, be aligned, and be long enough; a loop or more
/// than 48 entries is refused. A found block must sit in a memory BAR and be long enough
/// for its type.
pub fn cap_region<C: ConfigSpace>(config: &C, device: Device, requested: u8) -> (r: Result<Option<CapRegion>, Error>)
    ensures
        r matches Ok(Some(region)) ==> region_minimum(requested) matches Some(m) && region.length >= m,
        region_minimum(requested) is None ==> !(r is Ok && r->Ok_0 is Some),
{
    let mut pointer = config_byte(config, device, 0x34) as u16;
    if pointer == 0 {
        return Ok(None);
    }
    let mut step: usize = 0;
    while step < 48
        invariant
            step <= 48,
        decreases 48 - step,
    {
        if pointer < 0x40 || pointer >= 0x100 || pointer & 3 != 0 || pointer + 4 > 0x100 {
            return Err(Error::InvalidCapability);
        }
        let at = pointer as u8;
        if config_byte(config, device, at) == PCI_CAP_ID_VENDOR {
            let length = config_byte(config, device, at + 2);
            let kind = config_byte(config, device, at + 3);
            let end = pointer + length as u16;
            let minimum_capability: u8 = if kind == PCI_CAP_NOTIFY_CFG { 20 } else { 16 };
            if length < minimum_capability || end > 0x100 {
                return Err(Error::InvalidCapability);
            }
            if kind == requested {
                let minimum_region: u32 = if requested == PCI_CAP_COMMON_CFG {
                    COMMON_MIN_SIZE as u32
                } else if requested == PCI_CAP_NOTIFY_CFG {
                    2
                } else if requested == PCI_CAP_DEVICE_CFG {
                    8
                } else {
                    return Err(Error::InvalidCapability);
                };
                let bar = config_byte(config, device, at + 4);
                let base = match device.bar(config, bar) {
                    Some(Bar::Mmio(base)) => base,
                    _ => return Err(Error::InvalidPciBar),
                };
                let region_base = match base.checked_add(device.read(config, at + 8) as u64) {
                    Some(b) => b,
                    None => return Err(Error::InvalidPciBar),
                };
                let region_length = device.read(config, at + 12);
                if region_length < minimum_region {
                    return Err(Error::InvalidCapability);
                }
                let multiplier = if requested == PCI_CAP_NOTIFY_CFG {
                    device.read(config, at + 16)
                } else {
                    0
                };
                return Ok(Some(CapRegion { base: region_base, length: region_length, multiplier }));
            }
        }
        let next = config_byte(config, device, at + 1) as u16;
        if next == 0 {
            return Ok(None);
        }
        if next == pointer {
            return Err(Error::InvalidCapability);
        }
        pointer = next;
        step = step + 1;
    }
    Err(Error::InvalidCapability)
}

/// Checks the queue layout and used-entry rules on known values.
pub fn contract_self_check() {
    let layout = queue_layout(8);
    assert(layout == Some((128usize, 4096usize, 4164usize)));
    let two = queue_layout(2);
    assert(two is None);
    let three = queue_layout(3);
    assert(three is None);
    let sixteen = queue_layout(16);
    assert(sixteen is None);
    let r = Operation::Read.expected_used_length();
    assert(r == 513);
    let w = Operation::Write.expected_used_length();
    assert(w == 1);
    let f = Operation::Flush.expected_used_length();
    assert(f == 1);
    let a = validate_used(1, 0, 513, 513, 8);
    assert(a is Ok);
    let b = validate_used(1, 0, 1, 1, 8);
    assert(b is Ok);
    let c = validate_used(1, 1, 513, 513, 8);
    assert(c == Err::<(), Error>(Error::InvalidUsedDescriptor(1)));
    let d = validate_used(1, 0, 512, 513, 8);
    assert(d == Err::<(), Error>(Error::InvalidUsedLength(512)));
}

// ---------------------------------------------------------------------------
// Bringing the device up, one register access at a time

/// What a device that came up offers: its capacity, whether it is read-only and can
/// flush, the queue size chosen and the device status read back at the end.
#[derive(Clone, Copy, Debug, PartialEq, Eq, Structural)]
pub struct BroughtUp {
    pub capacity: u64,
    pub read_only: bool,
    pub flush: bool,
    pub queue_size: u16,
    pub device_status: u8,
}

/// The next thing the initialization asks of the device's common configuration, or
/// its end.
#[derive(Clone, Copy, Debug, PartialEq, Eq)]
pub enum InitAction {
    WriteStatus(u8),
    ReadStatus,
    SelectDeviceFeatures(u32),
    ReadDeviceFeatures,
    SelectDriverFeatures(u32),
    WriteDriverFeatures(u32),
    ReadCapacity,
    ReadQueueCount,
    SelectQueue(u16),
    ReadQueueSize,
    CreateQueue(u16),
    Done(Result<BroughtUp, Error>),
}

/// The device's answer to the last action: whether a write took, what a read gave,
/// the capacity read, or whether the queue could be set up.
#[derive(Clone, Copy, Debug, PartialEq, Eq)]
pub enum InitEvent {
    Written(bool),
    Read8(Option<u8>),
    Read16(Option<u16>),
    Read32(Option<u32>),
    Capacity(Result<u64, Error>),
    QueueCreated(Result<(), Error>),
}

/// Where the initialization stands: which action it waits on, with what it learned so
/// far.
#[derive(Clone, Copy, Debug, PartialEq, Eq, Structural)]
pub enum InitPhase {
    ResetWritten,
    ResetRead,
    AcknowledgeWritten,
    DriverWritten,
    LowSelected,
    LowRead,
    HighSelected { low: u32 },
    HighRead { low: u32 },
    DriverLowSelected { features: u64, read_only: bool, flush: bool },
    DriverLowWritten { read_only: bool, flush: bool },
    DriverHighSelected { read_only: bool, flush: bool },
    DriverHighWritten { read_only: bool, flush: bool },
    FeaturesOkWritten { read_only: bool, flush: bool },
    NegotiatedRead { read_only: bool, flush: bool },
    CapacityRead { read_only: bool, flush: bool },
    QueueCountRead { capacity: u64, read_only: bool, flush: bool },
    QueueSelected { capacity: u64, read_only: bool, flush: bool },
    QueueSizeRead { capacity: u64, read_only: bool, flush: bool },
    QueueMade { capacity: u64, read_only: bool, flush: bool, size: u16 },
    DriverOkWritten { capacity: u64, read_only: bool, flush: bool, size: u16 },
    FinalStatusRead { capacity: u64, read_only: bool, flush: bool, size: u16 },
    Finished,
}

/// The features the driver takes from what the device offers, as `negotiate` answers.
pub open spec fn spec_negotiate(device_features: u64) -> Result<(u64, bool, bool), Error> {
    if device_features & VIRTIO_F_VERSION_1 == 0 {
        Err(Error::UnsupportedFeatures)
    } else {
        Ok(
            (
                (if device_features & VIRTIO_BLK_F_RO != 0 { VIRTIO_BLK_F_RO } else { 0u64 }) | (if device_features
                    & VIRTIO_BLK_F_FLUSH != 0 {
                    VIRTIO_BLK_F_FLUSH
                } else {
                    0u64
                }),
                device_features & VIRTIO_BLK_F_RO != 0,
                device_features & VIRTIO_BLK_F_FLUSH != 0,
            ),
        )
    }
}

/// The check of the status read back after negotiation, as `check_negotiated_status`
/// answers.
pub open spec fn spec_negotiated_status(status: u8) -> Result<(), Error> {
    if status & STATUS_FEATURES_OK == 0 {
        Err(Error::FeaturesRejected)
    } else if status & (STATUS_FAILED | STATUS_DEVICE_NEEDS_RESET) != 0 {
        Err(Error::DeviceState(status))
    } else {
        Ok(())
    }
}

/// The queue size taken of what the device offers, as `choose_queue_size` answers.
pub open spec fn spec_queue_size(offered: u16) -> Result<u16, Error> {
    let size = if offered < MAX_QUEUE_SIZE { offered } else { MAX_QUEUE_SIZE };
    if size < 4 || !(size == 4 || size == 8) {
        Err(Error::InvalidQueue)
    } else {
        Ok(size)
    }
}

/// The check of the final device status, as `check_device_status` answers.
pub open spec fn spec_device_status(status: u8) -> Result<(), Error> {
    if status & (STATUS_FAILED | STATUS_DEVICE_NEEDS_RESET) != 0 || status & STATUS_DRIVER_OK == 0 {
        Err(Error::DeviceState(status))
    } else {
        Ok(())
    }
}

/// Ending with `error`.
pub open spec fn init_failed(error: Error) -> (InitPhase, InitAction) {
    (InitPhase::Finished, InitAction::Done(Err(error)))
}

/// The status value that acknowledges the device, announces the driver and accepts
/// the features.
pub open spec fn features_ok_status() -> u8 {
    STATUS_ACKNOWLEDGE | STATUS_DRIVER | STATUS_FEATURES_OK
}

/// The next phase and action once the device answered `event` in `phase`: the device
/// is reset and must read back as reset; acknowledged and told of the driver; its two
/// feature words are read and negotiated; the driver's features (read-only and flush
/// when offered, and version 1) are written and accepted; the status read back must
/// keep features-ok; the capacity must not be zero; a queue must exist and its size
/// be usable; once the queue is set up the driver is marked ready and the final
/// status must show it running. A write that does not take or a read that gives
/// nothing ends it with `Device`, except that a queue that cannot be selected ends it
/// with `InvalidQueue`; an answer of another kind than asked ends it with `Device`.
pub open spec fn spec_init_step(phase: InitPhase, event: InitEvent) -> (InitPhase, InitAction) {
    match (phase, event) {
        (InitPhase::ResetWritten, InitEvent::Written(true)) => (InitPhase::ResetRead, InitAction::ReadStatus),
        (InitPhase::ResetRead, InitEvent::Read8(Some(0u8))) => (
            InitPhase::AcknowledgeWritten,
            InitAction::WriteStatus(STATUS_ACKNOWLEDGE),
        ),
        (InitPhase::AcknowledgeWritten, InitEvent::Written(true)) => (
            InitPhase::DriverWritten,
            InitAction::WriteStatus(STATUS_ACKNOWLEDGE | STATUS_DRIVER),
        ),
        (InitPhase::DriverWritten, InitEvent::Written(true)) => (
            InitPhase::LowSelected,
            InitAction::SelectDeviceFeatures(0),
        ),
        (InitPhase::LowSelected, InitEvent::Written(true)) => (InitPhase::LowRead, InitAction::ReadDeviceFeatures),
        (InitPhase::LowRead, InitEvent::Read32(Some(low))) => (
            InitPhase::HighSelected { low },
            InitAction::SelectDeviceFeatures(1),
        ),
        (InitPhase::HighSelected { low }, InitEvent::Written(true)) => (
            InitPhase::HighRead { low },
            InitAction::ReadDeviceFeatures,
        ),
        (InitPhase::HighRead { low }, InitEvent::Read32(Some(high))) => match spec_negotiate(
            ((high as u64) << 32u64) | low as u64,
        ) {
            Err(e) => init_failed(e),
            Ok((features, read_only, flush)) => (
                InitPhase::DriverLowSelected { features, read_only, flush },
                InitAction::SelectDriverFeatures(0),
            ),
        },
        (InitPhase::DriverLowSelected { features, read_only, flush }, InitEvent::Written(true)) => (
            InitPhase::DriverLowWritten { read_only, flush },
            InitAction::WriteDriverFeatures(features as u32),
        ),
        (InitPhase::DriverLowWritten { read_only, flush }, InitEvent::Written(true)) => (
            InitPhase::DriverHighSelected { read_only, flush },
            InitAction::SelectDriverFeatures(1),
        ),
        (InitPhase::DriverHighSelected { read_only, flush }, InitEvent::Written(true)) => (
            InitPhase::DriverHighWritten { read_only, flush },
            InitAction::WriteDriverFeatures((VIRTIO_F_VERSION_1 >> 32u64) as u32),
        ),
        (InitPhase::DriverHighWritten { read_only, flush }, InitEvent::Written(true)) => (
            InitPhase::FeaturesOkWritten { read_only, flush },
            InitAction::WriteStatus(features_ok_status()),
        ),
        (InitPhase::FeaturesOkWritten { read_only, flush }, InitEvent::Written(true)) => (
            InitPhase::NegotiatedRead { read_only, flush },
            InitAction::ReadStatus,
        ),
        (InitPhase::NegotiatedRead { read_only, flush }, InitEvent::Read8(Some(status))) => match spec_negotiated_status(
            status,
        ) {
            Err(e) => init_failed(e),
            Ok(()) => (InitPhase::CapacityRead { read_only, flush }, InitAction::ReadCapacity),
        },
        (InitPhase::CapacityRead { read_only, flush }, InitEvent::Capacity(answer)) => match answer {
            Err(e) => init_failed(e),
            Ok(capacity) => if capacity == 0 {
                init_failed(Error::InvalidCapacity)
            } else {
                (InitPhase::QueueCountRead { capacity, read_only, flush }, InitAction::ReadQueueCount)
            },
        },
        (InitPhase::QueueCountRead { capacity, read_only, flush }, InitEvent::Read16(Some(count))) => if count == 0 {
            init_failed(Error::InvalidQueue)
        } else {
            (InitPhase::QueueSelected { capacity, read_only, flush }, InitAction::SelectQueue(0))
        },
        (InitPhase::QueueSelected { capacity, read_only, flush }, InitEvent::Written(selected)) => if selected {
            (InitPhase::QueueSizeRead { capacity, read_only, flush }, InitAction::ReadQueueSize)
        } else {
            init_failed(Error::InvalidQueue)
        },
        (InitPhase::QueueSizeRead { capacity, read_only, flush }, InitEvent::Read16(Some(offered))) => match spec_queue_size(
            offered,
        ) {
            Err(e) => init_failed(e),
            Ok(size) => (InitPhase::QueueMade { capacity, read_only, flush, size }, InitAction::CreateQueue(size)),
        },
        (InitPhase::QueueMade { capacity, read_only, flush, size }, InitEvent::QueueCreated(answer)) => match answer {
            Err(e) => init_failed(e),
            Ok(()) => (
                InitPhase::DriverOkWritten { capacity, read_only, flush, size },
                InitAction::WriteStatus(features_ok_status() | STATUS_DRIVER_OK),
            ),
        },
        (InitPhase::DriverOkWritten { capacity, read_only, flush, size }, InitEvent::Written(true)) => (
            InitPhase::FinalStatusRead { capacity, read_only, flush, size },
            InitAction::ReadStatus,
        ),
        (InitPhase::FinalStatusRead { capacity, read_only, flush, size }, InitEvent::Read8(Some(status))) => match spec_device_status(
            status,
        ) {
            Err(e) => init_failed(e),
            Ok(()) => (
                InitPhase::Finished,
                InitAction::Done(
                    Ok(BroughtUp { capacity, read_only, flush, queue_size: size, device_status: status }),
                ),
            ),
        },
        (InitPhase::Finished, _) => init_failed(Error::NotReady),
        _ => init_failed(Error::Device),
    }
}

/// The first phase and action: the device is reset.
pub fn init_start() -> (r: (InitPhase, InitAction))
    ensures
        r == (InitPhase::ResetWritten, InitAction::WriteStatus(0)),
{
    (InitPhase::ResetWritten, InitAction::WriteStatus(0))
}

/// One step of bringing the device up: the next phase and action once the device
/// answered `event` in `phase`, as `spec_init_step` says.
pub fn init_step(phase: InitPhase, event: InitEvent) -> (r: (InitPhase, InitAction))
    ensures
        r == spec_init_step(phase, event),
{
    match (phase, event) {
        (InitPhase::ResetWritten, InitEvent::Written(true)) => (InitPhase::ResetRead, InitAction::ReadStatus),
        (InitPhase::ResetRead, InitEvent::Read8(Some(0u8))) => (
            InitPhase::AcknowledgeWritten,
            InitAction::WriteStatus(STATUS_ACKNOWLEDGE),
        ),
        (InitPhase::AcknowledgeWritten, InitEvent::Written(true)) => (
            InitPhase::DriverWritten,
            InitAction::WriteStatus(STATUS_ACKNOWLEDGE | STATUS_DRIVER),
        ),
        (InitPhase::DriverWritten, InitEvent::Written(true)) => (
            InitPhase::LowSelected,
            InitAction::SelectDeviceFeatures(0),
        ),
        (InitPhase::LowSelected, InitEvent::Written(true)) => (InitPhase::LowRead, InitAction::ReadDeviceFeatures),
        (InitPhase::LowRead, InitEvent::Read32(Some(low))) => (
            InitPhase::HighSelected { low },
            InitAction::SelectDeviceFeatures(1),
        ),
        (InitPhase::HighSelected { low }, InitEvent::Written(true)) => (
            InitPhase::HighRead { low },
            InitAction::ReadDeviceFeatures,
        ),
        (InitPhase::HighRead { low }, InitEvent::Read32(Some(high))) => {
            let device_features = ((high as u64) << 32u64) | low as u64;
            match negotiate(device_features) {
                Err(e) => (InitPhase::Finished, InitAction::Done(Err(e))),
                Ok((features, read_only, flush)) => (
                    InitPhase::DriverLowSelected { features, read_only, flush },
                    InitAction::SelectDriverFeatures(0),
                ),
            }
        },
        (InitPhase::DriverLowSelected { features, read_only, flush }, InitEvent::Written(true)) => (
            InitPhase::DriverLowWritten { read_only, flush },
            InitAction::WriteDriverFeatures(features as u32),
        ),
        (InitPhase::DriverLowWritten { read_only, flush }, InitEvent::Written(true)) => (
            InitPhase::DriverHighSelected { read_only, flush },
            InitAction::SelectDriverFeatures(1),
        ),
        (InitPhase::DriverHighSelected { read_only, flush }, InitEvent::Written(true)) => (
            InitPhase::DriverHighWritten { read_only, flush },
            InitAction::WriteDriverFeatures((VIRTIO_F_VERSION_1 >> 32u64) as u32),
        ),
        (InitPhase::DriverHighWritten { read_only, flush }, InitEvent::Written(true)) => (
            InitPhase::FeaturesOkWritten { read_only, flush },
            InitAction::WriteStatus(STATUS_ACKNOWLEDGE | STATUS_DRIVER | STATUS_FEATURES_OK),
        ),
        (InitPhase::FeaturesOkWritten { read_only, flush }, InitEvent::Written(true)) => (
            InitPhase::NegotiatedRead { read_only, flush },
            InitAction::ReadStatus,
        ),
        (InitPhase::NegotiatedRead { read_only, flush }, InitEvent::Read8(Some(status))) => match check_negotiated_status(
            status,
        ) {
            Err(e) => (InitPhase::Finished, InitAction::Done(Err(e))),
            Ok(()) => (InitPhase::CapacityRead { read_only, flush }, InitAction::ReadCapacity),
        },
        (InitPhase::CapacityRead { read_only, flush }, InitEvent::Capacity(answer)) => match answer {
            Err(e) => (InitPhase::Finished, InitAction::Done(Err(e))),
            Ok(capacity) => if capacity == 0 {
                (InitPhase::Finished, InitAction::Done(Err(Error::InvalidCapacity)))
            } else {
                (InitPhase::QueueCountRead { capacity, read_only, flush }, InitAction::ReadQueueCount)
            },
        },
        (InitPhase::QueueCountRead { capacity, read_only, flush }, InitEvent::Read16(Some(count))) => if count == 0 {
            (InitPhase::Finished, InitAction::Done(Err(Error::InvalidQueue)))
        } else {
            (InitPhase::QueueSelected { capacity, read_only, flush }, InitAction::SelectQueue(0))
        },
        (InitPhase::QueueSelected { capacity, read_only, flush }, InitEvent::Written(selected)) => if selected {
            (InitPhase::QueueSizeRead { capacity, read_only, flush }, InitAction::ReadQueueSize)
        } else {
            (InitPhase::Finished, InitAction::Done(Err(Error::InvalidQueue)))
        },
        (InitPhase::QueueSizeRead { capacity, read_only, flush }, InitEvent::Read16(Some(offered))) => match choose_queue_size(
            offered,
        ) {
            Err(e) => (InitPhase::Finished, InitAction::Done(Err(e))),
            Ok(size) => (InitPhase::QueueMade { capacity, read_only, flush, size }, InitAction::CreateQueue(size)),
        },
        (InitPhase::QueueMade { capacity, read_only, flush, size }, InitEvent::QueueCreated(answer)) => match answer {
            Err(e) => (InitPhase::Finished, InitAction::Done(Err(e))),
            Ok(()) => (
                InitPhase::DriverOkWritten { capacity, read_only, flush, size },
                InitAction::WriteStatus(STATUS_ACKNOWLEDGE | STATUS_DRIVER | STATUS_FEATURES_OK | STATUS_DRIVER_OK),
            ),
        },
        (InitPhase::DriverOkWritten { capacity, read_only, flush, size }, InitEvent::Written(true)) => (
            InitPhase::FinalStatusRead { capacity, read_only, flush, size },
            InitAction::ReadStatus,
        ),
        (InitPhase::FinalStatusRead { capacity, read_only, flush, size }, InitEvent::Read8(Some(status))) => match check_device_status(
            status,
        ) {
            Err(e) => (InitPhase::Finished, InitAction::Done(Err(e))),
            Ok(()) => (
                InitPhase::Finished,
                InitAction::Done(
                    Ok(BroughtUp { capacity, read_only, flush, queue_size: size, device_status: status }),
                ),
            ),
        },
        (InitPhase::Finished, _) => (InitPhase::Finished, InitAction::Done(Err(Error::NotReady))),
        _ => (InitPhase::Finished, InitAction::Done(Err(Error::Device))),
    }
}

/// The device kept features-ok in the status it answered in `phase` with `event`.
pub open spec fn features_confirmed(phase: InitPhase, event: InitEvent) -> bool {
    &&& phase is NegotiatedRead
    &&& event matches InitEvent::Read8(Some(status))
    &&& status & STATUS_FEATURES_OK != 0
}

/// The phases reached only once the device has kept features-ok.
pub open spec fn after_negotiation(phase: InitPhase) -> bool {
    ||| phase is CapacityRead
    ||| phase is QueueCountRead
    ||| phase is QueueSelected
    ||| phase is QueueSizeRead
    ||| phase is QueueMade
    ||| phase is DriverOkWritten
    ||| phase is FinalStatusRead
}

/// The action writes a status that marks the driver ready.
pub open spec fn marks_driver_ok(action: InitAction) -> bool {
    action matches InitAction::WriteStatus(status) && status & STATUS_DRIVER_OK != 0
}

/// One step keeps the phases after negotiation behind a confirmation of features-ok,
/// and marks the driver ready only from one of them.
proof fn lemma_init_step_order(phase: InitPhase, event: InitEvent)
    ensures
        after_negotiation(spec_init_step(phase, event).0) ==> after_negotiation(phase) || features_confirmed(
            phase,
            event,
        ),
        marks_driver_ok(spec_init_step(phase, event).1) ==> after_negotiation(phase),
{
    assert(0u8 & 4 == 0 && 1u8 & 4 == 0 && (1u8 | 2) & 4 == 0 && (1u8 | 2 | 8) & 4 == 0) by (bit_vector);
    match (phase, event) {
        (InitPhase::NegotiatedRead { read_only, flush }, InitEvent::Read8(Some(status))) => {
            if status & STATUS_FEATURES_OK == 0 {
                assert(spec_negotiated_status(status) is Err);
            }
        },
        _ => {},
    }
}

/// Along any run of the initialization from its start, the driver writes a status that
/// marks it ready only after the device answered a status that kept features-ok.
pub proof fn law_driver_ok_after_features_accepted(
    phases: Seq<InitPhase>,
    events: Seq<InitEvent>,
    actions: Seq<InitAction>,
)
    requires
        phases.len() == events.len() + 1,
        actions.len() == events.len(),
        phases[0] == InitPhase::ResetWritten,
        forall|i: int|
            0 <= i < events.len() ==> #[trigger] spec_init_step(phases[i], events[i]) == (phases[i + 1], actions[i]),
    ensures
        forall|k: int|
            0 <= k < actions.len() && marks_driver_ok(#[trigger] actions[k]) ==> exists|j: int|
                0 <= j < k && #[trigger] features_confirmed(phases[j], events[j]),
    decreases events.len(),
{
    if events.len() > 0 {
        let n = events.len() - 1;
        let ps = phases.drop_last();
        let es = events.drop_last();
        let acts = actions.drop_last();
        assert forall|i: int| 0 <= i < es.len() implies #[trigger] spec_init_step(ps[i], es[i]) == (
            ps[i + 1],
            acts[i],
        ) by {
            assert(spec_init_step(phases[i], events[i]) == (phases[i + 1], actions[i]));
        }
        law_driver_ok_after_features_accepted(ps, es, acts);
        assert forall|k: int|
            0 <= k < actions.len() && marks_driver_ok(#[trigger] actions[k]) implies exists|j: int|
                0 <= j < k && #[trigger] features_confirmed(phases[j], events[j]) by {
            if k < n {
                assert(acts[k] == actions[k]);
                let j = choose|j: int| 0 <= j < k && #[trigger] features_confirmed(ps[j], es[j]);
                assert(ps[j] == phases[j] && es[j] == events[j]);
            } else {
                assert(spec_init_step(phases[n], events[n]) == (phases[n + 1], actions[n]));
                lemma_init_step_order(phases[n], events[n]);
                lemma_phase_confirmed(phases, events, actions, n);
            }
        }
    }
}

/// In a run from the start, a phase after negotiation has a confirmation of
/// features-ok behind it.
proof fn lemma_phase_confirmed(phases: Seq<InitPhase>, events: Seq<InitEvent>, actions: Seq<InitAction>, k: int)
    requires
        phases.len() == events.len() + 1,
        actions.len() == events.len(),
        phases[0] == InitPhase::ResetWritten,
        forall|i: int|
            0 <= i < events.len() ==> #[trigger] spec_init_step(phases[i], events[i]) == (phases[i + 1], actions[i]),
        0 <= k < phases.len(),
        after_negotiation(phases[k]),
    ensures
        exists|j: int| 0 <= j < k && #[trigger] features_confirmed(phases[j], events[j]),
    decreases k,
{
    if k > 0 {
        let i = k - 1;
        assert(spec_init_step(phases[i], events[i]) == (phases[i + 1], actions[i]));
        lemma_init_step_order(phases[i], events[i]);
        if features_confirmed(phases[i], events[i]) {
        } else {
            lemma_phase_confirmed(phases, events, actions, i);
        }
    }
}

} // verus!
