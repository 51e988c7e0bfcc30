use vstd::prelude::*;

verus! {

pub const VIRTIO_NET_CLASS: u32 = 0x0002_0000;
pub const PAGE_SIZE: usize = 4096;
pub const MAX_QUEUE_SIZE: u16 = 256;
pub const RX_BUFFERS: usize = 4;
pub const NET_HEADER: usize = 10;
pub const PACKET_BUFFER: usize = 2048;
pub const MIN_FRAME: usize = 14;
pub const MAX_FRAME: usize = 1514;
/// Frames shorter than this are padded before they are sent.
pub const MIN_WIRE_FRAME: usize = 60;
pub const FEATURE_MAC: u32 = 0x20;
pub const FEATURE_STATUS: u32 = 0x1_0000;
pub const LINK_UP: u16 = 1;
pub const DESC_WRITE: u16 = 2;

#[derive(Clone, Copy, Debug, PartialEq, Eq, Structural)]
pub enum NetError {
    InvalidPciBar,
    PciCommand,
    Device,
    UnsupportedFeatures,
    InvalidQueue,
    DmaUnavailable,
    AddressTooWide,
    InvalidPacket,
    Busy,
    WouldBlock,
    BufferTooSmall,
}

#[derive(Clone, Copy, Debug, PartialEq, Eq)]
pub struct Status {
    pub bus: u8,
    pub slot: u8,
    pub function: u8,
    pub vendor: u16,
    pub device: u16,
    pub mac: [u8; 6],
    pub link_up: bool,
    pub irq: u8,
    pub interrupts: bool,
    pub rx_queue: u16,
    pub tx_queue: u16,
    pub rx_pending: u16,
    pub rx_packets: u64,
    pub tx_packets: u64,
    pub rx_dropped: u64,
    pub tx_busy: bool,
}

#[derive(Clone, Copy, Debug, PartialEq, Eq)]
pub enum InitResult {
    Ready(Status),
    Unsupported,
    Failed(NetError),
}

/// A power of two up to the queue limit.
pub open spec fn is_queue_power(n: u16) -> bool {
    n == 1 || n == 2 || n == 4 || n == 8 || n == 16 || n == 32 || n == 64 || n == 128 || n == 256
}

fn queue_power(n: u16) -> (r: bool)
    ensures
        r == is_queue_power(n),
{
    n == 1 || n == 2 || n == 4 || n == 8 || n == 16 || n == 32 || n == 64 || n == 128 || n == 256
}

/// The sizes of a split virtqueue of `queue_size` entries: where the available ring
/// starts, where the page-aligned used ring starts, and the total.
pub open spec fn layout_of(queue_size: u16) -> Option<(usize, usize, usize)> {
    if queue_size == 0 || queue_size > MAX_QUEUE_SIZE || !is_queue_power(queue_size) {
        None
    } else {
        let available: int = queue_size * 16;
        let available_end: int = available + 4 + queue_size * 2;
        let page: int = PAGE_SIZE as int;
        let used: int = (available_end + page - 1) / page * page;
        Some((available as usize, used as usize, (used + 4 + queue_size * 8) as usize))
    }
}

pub fn queue_layout(queue_size: u16) -> (r: Option<(usize, usize, usize)>)
    ensures
        r == layout_of(queue_size),
{
    if queue_size == 0 || queue_size > MAX_QUEUE_SIZE || !queue_power(queue_size) {
        return None;
    }
    let available = queue_size as usize * 16;
    let available_end = available + 4 + queue_size as usize * 2;
    let used = (available_end + PAGE_SIZE - 1) / PAGE_SIZE * PAGE_SIZE;
    Some((available, used, used + 4 + queue_size as usize * 8))
}

/// The size a device offers for a queue, when usable.
pub fn check_queue_size(size: u16) -> (r: Result<u16, NetError>)
    ensures
        r == (if size == 0 || size > MAX_QUEUE_SIZE || !is_queue_power(size) {
            Err::<u16, NetError>(NetError::InvalidQueue)
        } else {
            Ok(size)
        }),
{
    if size == 0 || size > MAX_QUEUE_SIZE || !queue_power(size) {
        return Err(NetError::InvalidQueue);
    }
    Ok(size)
}

/// An Ethernet frame the driver sends or takes: 14 to 1514 bytes.
pub fn valid_packet(length: usize) -> (r: bool)
    ensures
        r == (MIN_FRAME <= length <= MAX_FRAME),
{
    MIN_FRAME <= length && length <= MAX_FRAME
}

/// The features the driver takes: the MAC address and the link status are required.
pub fn negotiate(features: u32) -> (r: Result<u32, NetError>)
    ensures
        r == (if features & (FEATURE_MAC | FEATURE_STATUS) != FEATURE_MAC | FEATURE_STATUS {
            Err::<u32, NetError>(NetError::UnsupportedFeatures)
        } else {
            Ok(FEATURE_MAC | FEATURE_STATUS)
        }),
{
    let negotiated = features & (FEATURE_MAC | FEATURE_STATUS);
    if negotiated != FEATURE_MAC | FEATURE_STATUS {
        return Err(NetError::UnsupportedFeatures);
    }
    Ok(negotiated)
}

/// The receive queue must hold every receive buffer, and the transmit queue an entry.
pub fn check_queue_sizes(rx_size: u16, tx_size: u16) -> (r: Result<(), NetError>)
    ensures
        r == (if rx_size < RX_BUFFERS || tx_size == 0 {
            Err::<(), NetError>(NetError::InvalidQueue)
        } else {
            Ok(())
        }),
{
    if rx_size < RX_BUFFERS as u16 || tx_size == 0 {
        return Err(NetError::InvalidQueue);
    }
    Ok(())
}

pub const DEVICE_FEATURES: usize = 0x00;
pub const GUEST_FEATURES: usize = 0x04;
pub const QUEUE_SIZE: usize = 0x0c;
pub const QUEUE_SELECT: usize = 0x0e;
pub const DEVICE_STATUS: usize = 0x12;
pub const DEVICE_CONFIG: usize = 0x14;
pub const STATUS_ACKNOWLEDGE: u8 = 1;
pub const STATUS_DRIVER: u8 = 2;
pub const STATUS_DRIVER_OK: u8 = 4;
pub const STATUS_FAILED: u8 = 0x80;

/// One access to the device's I/O window, with the answer it got.
#[derive(Clone, Copy, Debug, PartialEq, Eq, Structural)]
pub enum NetAccess {
    Read8(usize, Option<u8>),
    Read16(usize, Option<u16>),
    Read32(usize, Option<u32>),
    Write8(usize, u8, bool),
    Write16(usize, u16, bool),
    Write32(usize, u32, bool),
}

/// Register access to the device's legacy I/O window, by offset. What a register reads
/// as is the device's own; `accesses` records each access made, in order, with its
/// answer.
pub trait NetIo {
    spec fn accesses(&self) -> Seq<NetAccess>;

    fn read_u8(&mut self, offset: usize) -> (r: Option<u8>)
        ensures
            final(self).accesses() == old(self).accesses().push(NetAccess::Read8(offset, r)),
    ;

    fn read_u16(&mut self, offset: usize) -> (r: Option<u16>)
        ensures
            final(self).accesses() == old(self).accesses().push(NetAccess::Read16(offset, r)),
    ;

    fn read_u32(&mut self, offset: usize) -> (r: Option<u32>)
        ensures
            final(self).accesses() == old(self).accesses().push(NetAccess::Read32(offset, r)),
    ;

    fn write_u8(&mut self, offset: usize, value: u8) -> (r: bool)
        ensures
            final(self).accesses() == old(self).accesses().push(NetAccess::Write8(offset, value, r)),
    ;

    fn write_u16(&mut self, offset: usize, value: u16) -> (r: bool)
        ensures
            final(self).accesses() == old(self).accesses().push(NetAccess::Write16(offset, value, r)),
    ;

    fn write_u32(&mut self, offset: usize, value: u32) -> (r: bool)
        ensures
            final(self).accesses() == old(self).accesses().push(NetAccess::Write32(offset, value, r)),
    ;
}

/// A legacy virtio-net I/O window held in memory: the device features, the device
/// configuration bytes (the MAC address, then the link status), and one size per queue,
/// of which the queue size register answers the one last selected (none past the end).
/// Every write is accepted; status writes are kept in order.
pub struct NetRegisters {
    pub features: u32,
    pub config: Vec<u8>,
    pub queue_sizes: Vec<u16>,
    pub selected: u16,
    pub status: Vec<u8>,
    pub log: Ghost<Seq<NetAccess>>,
}

impl NetRegisters {
    pub fn new(features: u32, config: Vec<u8>, queue_sizes: Vec<u16>) -> (r: Self)
        ensures
            r.features == features,
            r.config@ == config@,
            r.queue_sizes@ == queue_sizes@,
            r.selected == 0,
            r.status@.len() == 0,
            r.log@.len() == 0,
    {
        NetRegisters { features, config, queue_sizes, selected: 0, status: Vec::new(), log: Ghost(Seq::empty()) }
    }

    fn config_byte(&self, offset: usize) -> (r: u8) {
        if offset >= DEVICE_CONFIG && offset - DEVICE_CONFIG < self.config.len() {
            self.config[offset - DEVICE_CONFIG]
        } else {
            0
        }
    }
}

impl NetIo for NetRegisters {
    open spec fn accesses(&self) -> Seq<NetAccess> {
        self.log@
    }

    fn read_u8(&mut self, offset: usize) -> (r: Option<u8>) {
        let value = self.config_byte(offset);
        proof {
            self.log@ = self.log@.push(NetAccess::Read8(offset, Some(value)));
        }
        Some(value)
    }

    fn read_u16(&mut self, offset: usize) -> (r: Option<u16>) {
        let value: u16 = if offset == QUEUE_SIZE {
            if (self.selected as usize) < self.queue_sizes.len() {
                self.queue_sizes[self.selected as usize]
            } else {
                0
            }
        } else if offset < usize::MAX {
            self.config_byte(offset) as u16 + (self.config_byte(offset + 1) as u16) * 0x100
        } else {
            0
        };
        proof {
            self.log@ = self.log@.push(NetAccess::Read16(offset, Some(value)));
        }
        Some(value)
    }

    fn read_u32(&mut self, offset: usize) -> (r: Option<u32>) {
        let value = if offset == DEVICE_FEATURES {
            self.features
        } else {
            0
        };
        proof {
            self.log@ = self.log@.push(NetAccess::Read32(offset, Some(value)));
        }
        Some(value)
    }

    fn write_u8(&mut self, offset: usize, value: u8) -> (r: bool) {
        if offset == DEVICE_STATUS {
            self.status.push(value);
        }
        proof {
            self.log@ = self.log@.push(NetAccess::Write8(offset, value, true));
        }
        true
    }

    fn write_u16(&mut self, offset: usize, value: u16) -> (r: bool) {
        if offset == QUEUE_SELECT {
            self.selected = value;
        }
        proof {
            self.log@ = self.log@.push(NetAccess::Write16(offset, value, true));
        }
        true
    }

    fn write_u32(&mut self, offset: usize, value: u32) -> (r: bool) {
        proof {
            self.log@ = self.log@.push(NetAccess::Write32(offset, value, true));
        }
        true
    }
}

/// The reads of the six MAC address bytes from the device configuration, with the
/// answers `mac`.
pub open spec fn mac_reads(mac: Seq<u8>) -> Seq<NetAccess> {
    Seq::new(mac.len(), |i: int| NetAccess::Read8((DEVICE_CONFIG + i) as usize, Some(mac[i])))
}

/// The accesses of a successful bring-up, given the device's answers: the features
/// read; the status reset, acknowledged and the driver announced; the MAC and link
/// status features taken; the MAC address and link status read; and each queue
/// selected and its size read.
pub open spec fn setup_log(features: u32, mac: Seq<u8>, link: u16, rx: u16, tx: u16) -> Seq<NetAccess> {
    seq![
        NetAccess::Read32(DEVICE_FEATURES, Some(features)),
        NetAccess::Write8(DEVICE_STATUS, 0, true),
        NetAccess::Write8(DEVICE_STATUS, STATUS_ACKNOWLEDGE, true),
        NetAccess::Write8(DEVICE_STATUS, STATUS_ACKNOWLEDGE | STATUS_DRIVER, true),
        NetAccess::Write32(GUEST_FEATURES, FEATURE_MAC | FEATURE_STATUS, true),
    ] + mac_reads(mac) + seq![
        NetAccess::Read16((DEVICE_CONFIG + 6) as usize, Some(link)),
        NetAccess::Write16(QUEUE_SELECT, 0, true),
        NetAccess::Read16(QUEUE_SIZE, Some(rx)),
        NetAccess::Write16(QUEUE_SELECT, 1, true),
        NetAccess::Read16(QUEUE_SIZE, Some(tx)),
    ]
}

/// A bring-up took the device's accesses from `before` to `after` and gave `setup`:
/// the accesses of `setup_log` with the answers `setup` holds, and the link up when the
/// link status read has its bit set.
pub open spec fn set_up(before: Seq<NetAccess>, after: Seq<NetAccess>, setup: DeviceSetup) -> bool {
    exists|features: u32, link: u16|
        after == before + #[trigger] setup_log(features, setup.mac@, link, setup.rx_size, setup.tx_size)
            && setup.link_up == (link & LINK_UP != 0)
}

/// What the device told the driver while it was brought up.
#[derive(Clone, Debug)]
pub struct DeviceSetup {
    pub features: u32,
    pub mac: Vec<u8>,
    pub link_up: bool,
    pub rx_size: u16,
    pub tx_size: u16,
}

/// A queue size the device offers is usable.
pub open spec fn usable_queue_size(size: u16) -> bool {
    size != 0 && size <= MAX_QUEUE_SIZE && is_queue_power(size)
}

/// An access the device did not answer: a read that gave nothing, or a write that did
/// not take.
pub open spec fn unanswered(access: NetAccess) -> bool {
    match access {
        NetAccess::Read8(_, v) => v is None,
        NetAccess::Read16(_, v) => v is None,
        NetAccess::Read32(_, v) => v is None,
        NetAccess::Write8(_, _, ok) => !ok,
        NetAccess::Write16(_, _, ok) => !ok,
        NetAccess::Write32(_, _, ok) => !ok,
    }
}

/// A read of the device's features that lacks the MAC address or the link status.
pub open spec fn refused_features(access: NetAccess) -> bool {
    access matches NetAccess::Read32(offset, Some(features)) && offset == DEVICE_FEATURES && features & (
    FEATURE_MAC | FEATURE_STATUS) != FEATURE_MAC | FEATURE_STATUS
}

/// A queue size read back that cannot be used for a queue of the driver.
pub open spec fn refused_size(access: NetAccess) -> bool {
    access matches NetAccess::Read16(offset, Some(size)) && offset == QUEUE_SIZE && (!usable_queue_size(size)
        || size < RX_BUFFERS)
}

/// What the accesses from `before` to `after` show of a bring-up that failed with
/// `error`: the accesses only grew; a `Device` failure has an access the device did not
/// answer; refused features were what the first access read; a refused queue had its
/// size read back as unusable or too small.
pub open spec fn failure_shown(before: Seq<NetAccess>, after: Seq<NetAccess>, error: NetError) -> bool {
    let added = after.skip(before.len() as int);
    &&& after.len() >= before.len()
    &&& after.take(before.len() as int) == before
    &&& error == NetError::Device ==> exists|i: int| 0 <= i < added.len() && unanswered(#[trigger] added[i])
    &&& error == NetError::UnsupportedFeatures ==> added.len() >= 1 && refused_features(added[0])
    &&& error == NetError::InvalidQueue ==> exists|i: int| 0 <= i < added.len() && refused_size(#[trigger] added[i])
}

/// The last access, one the device did not answer, shows a `Device` failure.
proof fn lemma_last_unanswered(before: Seq<NetAccess>, after: Seq<NetAccess>)
    requires
        after.len() > before.len(),
        after.take(before.len() as int) == before,
        unanswered(after.last()),
    ensures
        failure_shown(before, after, NetError::Device),
{
    let added = after.skip(before.len() as int);
    assert(added[added.len() - 1] == after.last());
}

/// A failure shown by later accesses is shown from an earlier point too.
proof fn lemma_failure_extends(before: Seq<NetAccess>, middle: Seq<NetAccess>, after: Seq<NetAccess>, error: NetError)
    requires
        middle.len() >= before.len(),
        middle.take(before.len() as int) == before,
        failure_shown(middle, after, error),
        error != NetError::UnsupportedFeatures,
    ensures
        failure_shown(before, after, error),
{
    let late = after.skip(middle.len() as int);
    let added = after.skip(before.len() as int);
    let shift = middle.len() - before.len();
    assert(after.take(before.len() as int) =~= middle.take(before.len() as int)) by {
        assert forall|k: int| 0 <= k < before.len() implies after.take(before.len() as int)[k] == middle.take(
            before.len() as int,
        )[k] by {
            assert(after.take(middle.len() as int)[k] == after[k]);
        }
    }
    if error == NetError::Device {
        let i = choose|i: int| 0 <= i < late.len() && unanswered(#[trigger] late[i]);
        assert(added[i + shift] == late[i]);
    }
    if error == NetError::InvalidQueue {
        let i = choose|i: int| 0 <= i < late.len() && refused_size(#[trigger] late[i]);
        assert(added[i + shift] == late[i]);
    }
}

/// The size the device offers for queue `index`, once selected.
fn read_queue_size<I: NetIo>(io: &mut I, index: u16) -> (r: Result<u16, NetError>)
    ensures
        r matches Ok(size) ==> usable_queue_size(size),
        r matches Ok(size) ==> final(io).accesses() == old(io).accesses() + seq![
            NetAccess::Write16(QUEUE_SELECT, index, true),
            NetAccess::Read16(QUEUE_SIZE, Some(size)),
        ],
        r matches Err(e) ==> e == NetError::Device || e == NetError::InvalidQueue,
        r matches Err(e) ==> failure_shown(old(io).accesses(), final(io).accesses(), e),
{
    let ghost start = io.accesses();
    if !io.write_u16(QUEUE_SELECT, index) {
        proof {
            assert(io.accesses().take(start.len() as int) =~= start);
            lemma_last_unanswered(start, io.accesses());
        }
        return Err(NetError::Device);
    }
    let size = match io.read_u16(QUEUE_SIZE) {
        Some(s) => s,
        None => {
            proof {
                assert(io.accesses().take(start.len() as int) =~= start);
                lemma_last_unanswered(start, io.accesses());
            }
            return Err(NetError::Device);
        },
    };
    proof {
        assert(io.accesses() =~= old(io).accesses() + seq![
            NetAccess::Write16(QUEUE_SELECT, index, true),
            NetAccess::Read16(QUEUE_SIZE, Some(size)),
        ]);
    }
    let checked = check_queue_size(size);
    proof {
        if checked is Err {
            let added = io.accesses().skip(start.len() as int);
            assert(added[1] == NetAccess::Read16(QUEUE_SIZE, Some(size)));
            assert(io.accesses().take(start.len() as int) =~= start);
        }
    }
    checked
}

/// Brings the device up to the point where its queues can be placed: resets it,
/// acknowledges it and announces the driver, takes the MAC and link status features
/// (marking the device failed when it lacks them), reads the MAC address and link
/// state, and reads both queues' sizes. `Device` when a register access fails.
pub fn device_setup<I: NetIo>(io: &mut I) -> (r: Result<DeviceSetup, NetError>)
    ensures
        r matches Ok(setup) ==> set_up(old(io).accesses(), final(io).accesses(), setup),
        r matches Ok(setup) ==> {
            &&& setup.features == FEATURE_MAC | FEATURE_STATUS
            &&& setup.mac@.len() == 6
            &&& usable_queue_size(setup.rx_size) && usable_queue_size(setup.tx_size)
            &&& setup.rx_size >= RX_BUFFERS
        },
        r matches Err(e) ==> e == NetError::Device || e == NetError::UnsupportedFeatures || e
            == NetError::InvalidQueue,
        r matches Err(e) ==> failure_shown(old(io).accesses(), final(io).accesses(), e),
{
    let ghost start = io.accesses();
    let features = match io.read_u32(DEVICE_FEATURES) {
        Some(f) => f,
        None => {
            proof {
                assert(io.accesses().take(start.len() as int) =~= start);
                lemma_last_unanswered(start, io.accesses());
            }
            return Err(NetError::Device);
        },
    };
    let ghost after_features = io.accesses();
    if !io.write_u8(DEVICE_STATUS, 0) {
        proof {
            assert(io.accesses().take(start.len() as int) =~= start);
            lemma_last_unanswered(start, io.accesses());
        }
        return Err(NetError::Device);
    }
    if !io.write_u8(DEVICE_STATUS, STATUS_ACKNOWLEDGE) {
        proof {
            assert(io.accesses().take(start.len() as int) =~= start);
            lemma_last_unanswered(start, io.accesses());
        }
        return Err(NetError::Device);
    }
    if !io.write_u8(DEVICE_STATUS, STATUS_ACKNOWLEDGE | STATUS_DRIVER) {
        proof {
            assert(io.accesses().take(start.len() as int) =~= start);
            lemma_last_unanswered(start, io.accesses());
        }
        return Err(NetError::Device);
    }
    let negotiated = match negotiate(features) {
        Ok(n) => n,
        Err(e) => {
            let _ = io.write_u8(DEVICE_STATUS, STATUS_FAILED);
            proof {
                assert(io.accesses().take(start.len() as int) =~= start);
                assert(io.accesses().skip(start.len() as int)[0] == after_features.last());
            }
            return Err(e);
        },
    };
    if !io.write_u32(GUEST_FEATURES, negotiated) {
        proof {
            assert(io.accesses().take(start.len() as int) =~= start);
            lemma_last_unanswered(start, io.accesses());
        }
        return Err(NetError::Device);
    }
    let ghost head = old(io).accesses() + seq![
        NetAccess::Read32(DEVICE_FEATURES, Some(features)),
        NetAccess::Write8(DEVICE_STATUS, 0, true),
        NetAccess::Write8(DEVICE_STATUS, STATUS_ACKNOWLEDGE, true),
        NetAccess::Write8(DEVICE_STATUS, STATUS_ACKNOWLEDGE | STATUS_DRIVER, true),
        NetAccess::Write32(GUEST_FEATURES, negotiated, true),
    ];
    proof {
        assert(io.accesses() =~= head);
        assert(head + mac_reads(Seq::empty()) =~= head);
        assert(head.take(start.len() as int) =~= start);
    }
    let mut mac: Vec<u8> = Vec::new();
    let mut index: usize = 0;
    while index < 6
        invariant
            index <= 6,
            mac@.len() == index,
            io.accesses() == head + mac_reads(mac@),
            head.len() == start.len() + 5,
            head.take(start.len() as int) == start,
            start == old(io).accesses(),
        decreases 6 - index,
    {
        match io.read_u8(DEVICE_CONFIG + index) {
            Some(b) => {
                let ghost before = mac@;
                mac.push(b);
                proof {
                    assert(mac_reads(mac@) =~= mac_reads(before).push(NetAccess::Read8((DEVICE_CONFIG + index) as usize, Some(b))));
                    assert(io.accesses() =~= head + mac_reads(mac@));
                }
            },
            None => {
                proof {
                    let acc = io.accesses();
                    assert forall|k: int| 0 <= k < start.len() implies acc.take(start.len() as int)[k] == start[k] by {
                        assert(acc[k] == (head + mac_reads(mac@))[k]);
                        assert(head[k] == head.take(start.len() as int)[k]);
                    }
                    assert(acc.take(start.len() as int) =~= start);
                    lemma_last_unanswered(start, acc);
                }
                return Err(NetError::Device);
            },
        }
        index = index + 1;
    }
    let link = match io.read_u16(DEVICE_CONFIG + 6) {
        Some(l) => l,
        None => {
            proof {
                assert(io.accesses().take(start.len() as int) =~= start);
                lemma_last_unanswered(start, io.accesses());
            }
            return Err(NetError::Device);
        },
    };
    let ghost before_rx = io.accesses();
    proof {
        assert(before_rx.take(start.len() as int) =~= start);
    }
    let rx_size = match read_queue_size(io, 0) {
        Ok(s) => s,
        Err(e) => {
            proof {
                lemma_failure_extends(start, before_rx, io.accesses(), e);
            }
            return Err(e);
        },
    };
    let ghost before_tx = io.accesses();
    proof {
        assert(before_tx.take(start.len() as int) =~= start);
    }
    let tx_size = match read_queue_size(io, 1) {
        Ok(s) => s,
        Err(e) => {
            proof {
                lemma_failure_extends(start, before_tx, io.accesses(), e);
            }
            return Err(e);
        },
    };
    match check_queue_sizes(rx_size, tx_size) {
        Ok(()) => {},
        Err(e) => {
            proof {
                let added = io.accesses().skip(start.len() as int);
                let at = before_rx.len() + 1 - start.len();
                assert(added[at] == NetAccess::Read16(QUEUE_SIZE, Some(rx_size)));
                assert(refused_size(added[at]));
                assert(io.accesses().take(start.len() as int) =~= start);
            }
            return Err(e);
        },
    }
    proof {
        assert(negotiated == FEATURE_MAC | FEATURE_STATUS);
        assert(io.accesses() =~= old(io).accesses() + setup_log(features, mac@, link, rx_size, tx_size));
    }
    let setup = DeviceSetup { features: negotiated, mac, link_up: link & LINK_UP != 0, rx_size, tx_size };
    proof {
        assert(io.accesses() == old(io).accesses() + setup_log(features, setup.mac@, link, setup.rx_size, setup.tx_size));
        assert(setup.link_up == (link & LINK_UP != 0));
        assert(set_up(old(io).accesses(), io.accesses(), setup));
    }
    Ok(setup)
}

/// The highest page frame the legacy interface can address: queue addresses are 32-bit
/// page numbers.
pub open spec fn addressable_page(physical: u64) -> bool {
    physical <= 0xffff_ffff_u64 * 4096
}

/// The receive buffers and the transmit buffer must all be addressable by the device.
pub fn check_buffer_pages(rx: &[u64], tx: u64) -> (r: Result<(), NetError>)
    ensures
        r is Ok <==> (forall|i: int| 0 <= i < rx@.len() ==> addressable_page(#[trigger] rx@[i])) && addressable_page(
            tx,
        ),
        r is Err ==> r == Err::<(), NetError>(NetError::AddressTooWide),
{
    let mut i: usize = 0;
    while i < rx.len()
        invariant
            i <= rx@.len(),
            forall|k: int| 0 <= k < i ==> addressable_page(#[trigger] rx@[k]),
        decreases rx@.len() - i,
    {
        if rx[i] > 0xffff_ffffu64 * 4096 {
            return Err(NetError::AddressTooWide);
        }
        i = i + 1;
    }
    if tx > 0xffff_ffffu64 * 4096 {
        return Err(NetError::AddressTooWide);
    }
    Ok(())
}

/// Tells the device the driver is ready, once its queues are in place: one write of
/// acknowledge, driver and driver-ok to the status register, whose answer is returned.
pub fn device_ready<I: NetIo>(io: &mut I) -> (r: bool)
    ensures
        final(io).accesses() == old(io).accesses().push(
            NetAccess::Write8(DEVICE_STATUS, STATUS_ACKNOWLEDGE | STATUS_DRIVER | STATUS_DRIVER_OK, r),
        ),
{
    io.write_u8(DEVICE_STATUS, STATUS_ACKNOWLEDGE | STATUS_DRIVER | STATUS_DRIVER_OK)
}

/// The driver's indices into one virtqueue's rings.
pub struct QueueIndex {
    pub size: u16,
    pub available: u16,
    pub used: u16,
}

pub open spec fn wrapping_inc(v: u16) -> u16 {
    if v == u16::MAX {
        0
    } else {
        (v + 1) as u16
    }
}

pub open spec fn wrapping_diff(a: u16, b: u16) -> u16 {
    if a >= b {
        (a - b) as u16
    } else {
        (a - b + 0x1_0000) as u16
    }
}

impl QueueIndex {
    pub fn new(size: u16) -> (r: Self)
        requires
            size > 0,
        ensures
            r.size == size && r.available == 0 && r.used == 0,
    {
        QueueIndex { size, available: 0, used: 0 }
    }

    /// Makes the next available-ring entry: the slot it goes in, with the index then
    /// published.
    pub fn publish(&mut self) -> (r: (u16, u16))
        requires
            old(self).size > 0,
        ensures
            r.0 == old(self).available % old(self).size,
            final(self).available == wrapping_inc(old(self).available),
            r.1 == final(self).available,
            final(self).size == old(self).size && final(self).used == old(self).used,
    {
        let slot = self.available % self.size;
        self.available = self.available.wrapping_add(1);
        (slot, self.available)
    }

    /// Takes the next used-ring entry, given the device's used index: the slot to read,
    /// `None` when nothing is pending, `InvalidQueue` when the device claims more than the
    /// queue holds.
    pub fn take_used(&mut self, device_used: u16) -> (r: Result<Option<u16>, NetError>)
        requires
            old(self).size > 0,
        ensures
            final(self).size == old(self).size && final(self).available == old(self).available,
            ({
                let pending = wrapping_diff(device_used, old(self).used);
                &&& pending == 0 ==> r == Ok::<Option<u16>, NetError>(None) && final(self).used == old(self).used
                &&& pending > old(self).size ==> r == Err::<Option<u16>, NetError>(NetError::InvalidQueue)
                    && final(self).used == old(self).used
                &&& 0 < pending <= old(self).size ==> r == Ok::<Option<u16>, NetError>(
                    Some((old(self).used % old(self).size) as u16),
                ) && final(self).used == wrapping_inc(old(self).used)
            }),
    {
        let pending = device_used.wrapping_sub(self.used);
        if pending == 0 {
            return Ok(None);
        }
        if pending > self.size {
            return Err(NetError::InvalidQueue);
        }
        let slot = self.used % self.size;
        self.used = self.used.wrapping_add(1);
        Ok(Some(slot))
    }
}

/// The driver's counters and transmit state.
#[derive(Clone, Copy, Debug, PartialEq, Eq, Structural)]
pub struct NetState {
    pub link_up: bool,
    pub tx_busy: bool,
    pub rx_packets: u64,
    pub tx_packets: u64,
    pub rx_dropped: u64,
}

pub open spec fn saturating_inc(v: u64) -> u64 {
    if v == u64::MAX {
        v
    } else {
        (v + 1) as u64
    }
}

impl NetState {
    pub fn new(link_up: bool) -> (r: Self)
        ensures
            r == (NetState { link_up, tx_busy: false, rx_packets: 0, tx_packets: 0, rx_dropped: 0 }),
    {
        NetState { link_up, tx_busy: false, rx_packets: 0, tx_packets: 0, rx_dropped: 0 }
    }

    /// A transmit completion: the transmit buffer's descriptor frees the transmitter and
    /// counts a sent packet.
    pub fn tx_completed(&mut self, descriptor: u32)
        ensures
            descriptor == 0 ==> *final(self) == (NetState {
                tx_busy: false,
                tx_packets: saturating_inc(old(self).tx_packets),
                ..*old(self)
            }),
            descriptor != 0 ==> *final(self) == *old(self),
    {
        if descriptor == 0 {
            self.tx_busy = false;
            self.tx_packets = self.tx_packets.saturating_add(1);
        }
    }

    /// Starting a transmit of `length` bytes: the wire length (padded to 60 bytes) when
    /// the frame is valid and the transmitter free, which is then busy.
    pub fn start_transmit(&mut self, length: usize) -> (r: Result<usize, NetError>)
        ensures
            !(MIN_FRAME <= length <= MAX_FRAME) ==> r == Err::<usize, NetError>(NetError::InvalidPacket)
                && *final(self) == *old(self),
            MIN_FRAME <= length <= MAX_FRAME && old(self).tx_busy ==> r == Err::<usize, NetError>(NetError::Busy)
                && *final(self) == *old(self),
            MIN_FRAME <= length <= MAX_FRAME && !old(self).tx_busy ==> r == Ok::<usize, NetError>(
                if length < MIN_WIRE_FRAME { MIN_WIRE_FRAME } else { length },
            ) && *final(self) == (NetState { tx_busy: true, ..*old(self) }),
    {
        if !valid_packet(length) {
            return Err(NetError::InvalidPacket);
        }
        if self.tx_busy {
            return Err(NetError::Busy);
        }
        self.tx_busy = true;
        Ok(if length < MIN_WIRE_FRAME { MIN_WIRE_FRAME } else { length })
    }

    /// A received buffer: the frame's length after the virtio header, when the buffer is
    /// one of the receive buffers, holds a header, and the frame fits the limit and the
    /// caller's buffer; a refused frame counts as dropped.
    pub fn received(&mut self, descriptor: u32, length: u32, capacity: usize) -> (r: Result<usize, NetError>)
        ensures
            (descriptor >= RX_BUFFERS || length < NET_HEADER) ==> r == Err::<usize, NetError>(NetError::InvalidPacket)
                && *final(self) == (NetState { rx_dropped: saturating_inc(old(self).rx_dropped), ..*old(self) }),
            !(descriptor >= RX_BUFFERS || length < NET_HEADER) && (length - NET_HEADER > MAX_FRAME || length - NET_HEADER
                > capacity) ==> r == Err::<usize, NetError>(NetError::BufferTooSmall) && *final(self) == (NetState {
                rx_dropped: saturating_inc(old(self).rx_dropped),
                ..*old(self)
            }),
            !(descriptor >= RX_BUFFERS || length < NET_HEADER) && !(length - NET_HEADER > MAX_FRAME || length
                - NET_HEADER > capacity) ==> r == Ok::<usize, NetError>((length - NET_HEADER) as usize) && *final(self)
                == (NetState { rx_packets: saturating_inc(old(self).rx_packets), ..*old(self) }),
    {
        if descriptor as usize >= RX_BUFFERS || (length as usize) < NET_HEADER {
            self.rx_dropped = self.rx_dropped.saturating_add(1);
            return Err(NetError::InvalidPacket);
        }
        let frame_len = length as usize - NET_HEADER;
        if frame_len > MAX_FRAME || frame_len > capacity {
            self.rx_dropped = self.rx_dropped.saturating_add(1);
            return Err(NetError::BufferTooSmall);
        }
        self.rx_packets = self.rx_packets.saturating_add(1);
        Ok(frame_len)
    }
}

/// Checks the layout and frame-length rules on known values.
pub fn contract_self_check() {
    let layout = queue_layout(8);
    assert(layout == Some((128usize, 4096usize, 4164usize)));
    let min = valid_packet(MIN_FRAME);
    assert(min);
    let empty = valid_packet(0);
    assert(!empty);
    let long = valid_packet(MAX_FRAME + 1);
    assert(!long);
    let zero = queue_layout(0);
    assert(zero is None);
}

} // verus!
