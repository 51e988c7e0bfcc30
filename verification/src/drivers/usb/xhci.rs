use vstd::prelude::*;
use crate::drivers::usb::hid;
use crate::drivers::block::bytes_equal;

verus! {

pub const XHCI_CLASS: u32 = 0x000c_0330;
pub const CAP_DBOFF: usize = 0x14;
pub const CAP_RTSOFF: usize = 0x18;
pub const OP_CONFIG: usize = 0x38;
pub const RT_INTR0: usize = 0x20;
pub const RT_ERDP: usize = 0x18;
pub const PORT_BASE: usize = 0x400;
pub const PORT_STRIDE: usize = 0x10;
pub const PORTSC_CONNECTED: u32 = 1;
pub const PORTSC_RESET: u32 = 0x10;
pub const PORTSC_SPEED_SHIFT: u32 = 10;
pub const PORTSC_SPEED_MASK: u32 = 0x3c00;
pub const PORTSC_RESET_CHANGE: u32 = 0x20_0000;
pub const PORTSC_CHANGE_BITS: u32 = 0x00fe_0000;
pub const ERDP_EVENT_HANDLER_BUSY: u64 = 8;
pub const MMIO_SIZE: usize = 0x4000;
pub const PAGE_SIZE: usize = 4096;
pub const RING_TRBS: usize = 256;
pub const LINK_INDEX: usize = 255;
pub const FTDI_VENDOR_ID: u16 = 0x0403;
pub const FTDI_SERIAL_PRODUCT_ID: u16 = 0x6001;

pub const TRB_NORMAL: u8 = 1;
pub const TRB_SETUP_STAGE: u8 = 2;
pub const TRB_DATA_STAGE: u8 = 3;
pub const TRB_STATUS_STAGE: u8 = 4;
pub const TRB_LINK: u8 = 6;
pub const TRB_ENABLE_SLOT: u8 = 9;
pub const TRB_DISABLE_SLOT: u8 = 10;
pub const TRB_ADDRESS_DEVICE: u8 = 11;
pub const TRB_CONFIGURE_ENDPOINT: u8 = 12;
pub const TRB_STOP_ENDPOINT: u8 = 15;
pub const TRB_TRANSFER_EVENT: u8 = 32;
pub const TRB_COMMAND_COMPLETION: u8 = 33;
pub const TRB_INTERRUPT_ON_COMPLETION: u32 = 0x20;
pub const TRB_CHAIN: u32 = 0x10;
pub const TRB_IMMEDIATE_DATA: u32 = 0x40;
pub const TRB_LINK_TOGGLE_CYCLE: u32 = 2;
pub const COMPLETION_SUCCESS: u8 = 1;

#[derive(Clone, Copy, Debug, PartialEq, Eq, Structural)]
pub enum HostControllerKind {
    Xhci,
    Ehci,
    Ohci,
}

#[derive(Clone, Copy, Debug, PartialEq, Eq, Structural)]
pub enum HostState {
    Ready,
}

#[derive(Clone, Copy, Debug, PartialEq, Eq, Structural)]
pub struct HostCapabilities {
    pub slots: u8,
    pub interrupters: u16,
    pub ports: u8,
    pub address64: bool,
    pub context_size: u8,
}

#[derive(Clone, Copy, Debug, PartialEq, Eq, Structural)]
pub enum UsbSpeed {
    Low,
    Full,
    High,
    Super,
    SuperPlus,
    Unknown(u8),
}

#[derive(Clone, Copy, Debug, PartialEq, Eq, Structural)]
pub enum UsbClass {
    Hid(hid::Kind),
    Serial,
    Storage,
    Other,
}

#[derive(Clone, Copy, Debug, PartialEq, Eq, Structural)]
pub enum SerialProtocol {
    CdcAcm,
    Ftdi,
}

#[derive(Clone, Copy, Debug, PartialEq, Eq, Structural)]
pub enum HostError {
    InvalidPciBar,
    InvalidCapabilities,
    RegisterAccess,
    Timeout,
    DmaUnavailable,
    RingFull,
    InvalidPort,
    Protocol,
    Completion(u8),
    DeviceAbsent,
}

impl SerialProtocol {
    pub fn name(self) -> (r: &'static str)
        ensures
            r == (match self {
                SerialProtocol::CdcAcm => "cdc-acm",
                SerialProtocol::Ftdi => "ftdi",
            }),
    {
        match self {
            SerialProtocol::CdcAcm => "cdc-acm",
            SerialProtocol::Ftdi => "ftdi",
        }
    }
}

impl UsbClass {
    pub fn name(self) -> (r: &'static str)
        ensures
            r == (match self {
                UsbClass::Hid(hid::Kind::Keyboard) => "keyboard",
                UsbClass::Hid(hid::Kind::Mouse) => "mouse",
                UsbClass::Hid(hid::Kind::Other) => "other",
                UsbClass::Serial => "serial",
                UsbClass::Storage => "storage",
                UsbClass::Other => "other",
            }),
    {
        match self {
            UsbClass::Hid(kind) => kind.name(),
            UsbClass::Serial => "serial",
            UsbClass::Storage => "storage",
            UsbClass::Other => "other",
        }
    }
}

/// The speed a port status register reports.
pub open spec fn speed_of(value: u32) -> UsbSpeed {
    let code = ((value & PORTSC_SPEED_MASK) >> PORTSC_SPEED_SHIFT) as u8;
    if code == 1 {
        UsbSpeed::Full
    } else if code == 2 {
        UsbSpeed::Low
    } else if code == 3 {
        UsbSpeed::High
    } else if code == 4 {
        UsbSpeed::Super
    } else if code == 5 {
        UsbSpeed::SuperPlus
    } else {
        UsbSpeed::Unknown(code)
    }
}

impl UsbSpeed {
    pub fn from_port_status(value: u32) -> (r: Self)
        ensures
            r == speed_of(value),
    {
        let code = ((value & PORTSC_SPEED_MASK) >> PORTSC_SPEED_SHIFT) as u8;
        if code == 1 {
            UsbSpeed::Full
        } else if code == 2 {
            UsbSpeed::Low
        } else if code == 3 {
            UsbSpeed::High
        } else if code == 4 {
            UsbSpeed::Super
        } else if code == 5 {
            UsbSpeed::SuperPlus
        } else {
            UsbSpeed::Unknown(code)
        }
    }

    pub fn name(self) -> (r: &'static str)
        ensures
            r == (match self {
                UsbSpeed::Low => "low",
                UsbSpeed::Full => "full",
                UsbSpeed::High => "high",
                UsbSpeed::Super => "super",
                UsbSpeed::SuperPlus => "super-plus",
                UsbSpeed::Unknown(_) => "unknown",
            }),
    {
        match self {
            UsbSpeed::Low => "low",
            UsbSpeed::Full => "full",
            UsbSpeed::High => "high",
            UsbSpeed::Super => "super",
            UsbSpeed::SuperPlus => "super-plus",
            UsbSpeed::Unknown(_) => "unknown",
        }
    }

    /// The speed's code in a port status or slot context.
    pub fn raw(self) -> (r: u8)
        ensures
            r == (match self {
                UsbSpeed::Low => 2u8,
                UsbSpeed::Full => 1u8,
                UsbSpeed::High => 3u8,
                UsbSpeed::Super => 4u8,
                UsbSpeed::SuperPlus => 5u8,
                UsbSpeed::Unknown(v) => v,
            }),
    {
        match self {
            UsbSpeed::Low => 2,
            UsbSpeed::Full => 1,
            UsbSpeed::High => 3,
            UsbSpeed::Super => 4,
            UsbSpeed::SuperPlus => 5,
            UsbSpeed::Unknown(v) => v,
        }
    }

    /// The default control endpoint's packet size at this speed.
    pub fn max_packet_size(self) -> (r: u16)
        ensures
            r == (match self {
                UsbSpeed::Low | UsbSpeed::Full | UsbSpeed::Unknown(_) => 8u16,
                UsbSpeed::High => 64u16,
                UsbSpeed::Super | UsbSpeed::SuperPlus => 512u16,
            }),
    {
        match self {
            UsbSpeed::Low | UsbSpeed::Full => 8,
            UsbSpeed::High => 64,
            UsbSpeed::Super | UsbSpeed::SuperPlus => 512,
            UsbSpeed::Unknown(_) => 8,
        }
    }
}

pub fn kind_name(kind: HostControllerKind) -> (r: &'static str)
    ensures
        r == (match kind {
            HostControllerKind::Xhci => "xhci",
            HostControllerKind::Ehci => "ehci",
            HostControllerKind::Ohci => "ohci",
        }),
{
    match kind {
        HostControllerKind::Xhci => "xhci",
        HostControllerKind::Ehci => "ehci",
        HostControllerKind::Ohci => "ohci",
    }
}

/// The slot, interrupter and port counts of HCSPARAMS1 and the 64-bit addressing bit of
/// HCCPARAMS1; `None` when any count is zero.
pub open spec fn capabilities_of(params: u32, hcc: u32) -> Option<(u8, u16, u8, bool)> {
    let slots = (params & 0xff) as u8;
    let interrupters = ((params >> 8u32) & 0x7ff) as u16;
    let ports = (params >> 24u32) as u8;
    if slots == 0 || interrupters == 0 || ports == 0 {
        None
    } else {
        Some((slots, interrupters, ports, hcc & 1 != 0))
    }
}

pub fn parse_capabilities(params: u32, hcc: u32) -> (r: Option<(u8, u16, u8, bool)>)
    ensures
        r == capabilities_of(params, hcc),
{
    let slots = (params & 0xff) as u8;
    let interrupters = ((params >> 8u32) & 0x7ff) as u16;
    let ports = (params >> 24u32) as u8;
    if slots == 0 || interrupters == 0 || ports == 0 {
        return None;
    }
    Some((slots, interrupters, ports, hcc & 1 != 0))
}

/// The capability registers' length and the controller's capabilities, from the values
/// read at CAPLENGTH, HCSPARAMS1 and HCCPARAMS1; `None` when the operational registers
/// would not start inside the register window or a count is zero.
pub fn read_capabilities(cap_length: u8, params: u32, hcc: u32) -> (r: Option<(usize, HostCapabilities)>)
    ensures
        match r {
            None => cap_length < 0x20 || capabilities_of(params, hcc) is None,
            Some((length, caps)) => {
                &&& length == cap_length && cap_length >= 0x20
                &&& capabilities_of(params, hcc) == Some((caps.slots, caps.interrupters, caps.ports, caps.address64))
                &&& caps.context_size == (if hcc & 4 != 0 { 64u8 } else { 32u8 })
            },
        },
{
    let length = cap_length as usize;
    if length < 0x20 || length >= MMIO_SIZE {
        return None;
    }
    let packed = match parse_capabilities(params, hcc) {
        Some(p) => p,
        None => return None,
    };
    Some(
        (
            length,
            HostCapabilities {
                slots: packed.0,
                interrupters: packed.1,
                ports: packed.2,
                address64: packed.3,
                context_size: if hcc & 4 != 0 { 64 } else { 32 },
            },
        ),
    )
}

/// Where the doorbell and runtime registers lie, from DBOFF and RTSOFF; `None` when
/// either block would leave the register window.
pub fn register_layout(dboff: u32, rtsoff: u32) -> (r: Option<(usize, usize)>)
    ensures
        match r {
            None => (dboff & !3u32) + 4 > MMIO_SIZE || (rtsoff & !31u32) + RT_INTR0 + 0x40 > MMIO_SIZE,
            Some((doorbell, runtime)) => {
                &&& doorbell == dboff & !3u32
                &&& runtime == rtsoff & !31u32
                &&& doorbell + 4 <= MMIO_SIZE
                &&& runtime + RT_INTR0 + 0x40 <= MMIO_SIZE
            },
        },
{
    let doorbell = (dboff & !3u32) as usize;
    let runtime = (rtsoff & !31u32) as usize;
    if doorbell > MMIO_SIZE - 4 || runtime > MMIO_SIZE - (RT_INTR0 + 0x40) {
        return None;
    }
    Some((doorbell, runtime))
}

/// The offset of port `port`'s registers, for a controller with `ports` ports whose
/// operational registers start at `operational`.
pub fn port_offset(operational: usize, ports: u8, port: u8) -> (r: Option<usize>)
    ensures
        match r {
            None => port >= ports || operational + PORT_BASE + port * PORT_STRIDE > usize::MAX,
            Some(offset) => port < ports && offset == operational + PORT_BASE + port * PORT_STRIDE,
        },
{
    if port >= ports {
        return None;
    }
    let base = match operational.checked_add(PORT_BASE) {
        Some(b) => b,
        None => return None,
    };
    base.checked_add(port as usize * PORT_STRIDE)
}

/// The port status value that starts a port reset: the change bits are written as zero
/// so they stay set, and the reset bit is set.
pub fn port_reset_command(current: u32) -> (r: u32)
    ensures
        r == (current & !PORTSC_CHANGE_BITS) | PORTSC_RESET,
{
    (current & !PORTSC_CHANGE_BITS) | PORTSC_RESET
}

/// What a port status read after a reset tells: still resetting (`None`), the port
/// went away, or the speed it came up at with the value that acknowledges its change
/// bits (zero when there is nothing to acknowledge).
pub fn port_reset_outcome(value: u32) -> (r: Option<Result<(UsbSpeed, u32), HostError>>)
    ensures
        value & PORTSC_RESET != 0 ==> r is None,
        value & PORTSC_RESET == 0 && value & PORTSC_CONNECTED == 0 ==> r == Some(
            Err::<(UsbSpeed, u32), HostError>(HostError::InvalidPort),
        ),
        value & PORTSC_RESET == 0 && value & PORTSC_CONNECTED != 0 ==> r == Some(
            Ok::<(UsbSpeed, u32), HostError>(
                (
                    speed_of(value),
                    if value & PORTSC_CHANGE_BITS != 0 {
                        (value & PORTSC_CHANGE_BITS) | PORTSC_RESET_CHANGE
                    } else {
                        0u32
                    },
                ),
            ),
        ),
{
    if value & PORTSC_RESET != 0 {
        return None;
    }
    if value & PORTSC_CONNECTED == 0 {
        return Some(Err(HostError::InvalidPort));
    }
    let speed = UsbSpeed::from_port_status(value);
    let changes = value & PORTSC_CHANGE_BITS;
    let acknowledge = if changes != 0 {
        changes | PORTSC_RESET_CHANGE
    } else {
        0
    };
    Some(Ok((speed, acknowledge)))
}

// ---------------------------------------------------------------------------
// Transfer request blocks

/// A transfer request block: a 64-bit parameter, a status word and a control word.
#[derive(Clone, Copy, Debug, PartialEq, Eq, Structural)]
pub struct Trb {
    pub parameter_low: u32,
    pub parameter_high: u32,
    pub status: u32,
    pub control: u32,
}

impl Trb {
    pub fn new(parameter: u64, status: u32, control: u32) -> (r: Self)
        ensures
            r.parameter_low == parameter as u32,
            r.parameter_high == (parameter >> 32u64) as u32,
            r.status == status,
            r.control == control,
    {
        Trb { parameter_low: parameter as u32, parameter_high: (parameter >> 32u64) as u32, status, control }
    }

    /// The TRB type field.
    pub fn kind(self) -> (r: u8)
        ensures
            r == ((self.control >> 10u32) & 0x3f) as u8,
    {
        ((self.control >> 10u32) & 0x3f) as u8
    }

    /// A link back to the ring's start that toggles the cycle state.
    pub fn link(physical: u64) -> (r: Self)
        ensures
            r == Trb::spec_new(physical, 0, (TRB_LINK as u32) << 10u32 | TRB_LINK_TOGGLE_CYCLE),
    {
        Trb::new(physical, 0, (TRB_LINK as u32) << 10u32 | TRB_LINK_TOGGLE_CYCLE)
    }

    pub open spec fn spec_new(parameter: u64, status: u32, control: u32) -> Trb {
        Trb { parameter_low: parameter as u32, parameter_high: (parameter >> 32u64) as u32, status, control }
    }

    /// A link TRB carrying the given cycle bit.
    pub fn link_with_cycle(physical: u64, cycle: bool) -> (r: Self)
        ensures
            r == Trb::spec_new(
                physical,
                0,
                (((TRB_LINK as u32) << 10u32 | TRB_LINK_TOGGLE_CYCLE) & !1u32) | (if cycle { 1u32 } else { 0u32 }),
            ),
    {
        let mut trb = Trb::link(physical);
        trb.control = (trb.control & !1u32) | (if cycle { 1u32 } else { 0u32 });
        trb
    }

    /// The setup stage of a control transfer: the packet as immediate data, with the
    /// transfer type naming the data stage's direction (none, IN or OUT).
    pub fn setup(setup: SetupPacket, data_in: bool) -> (r: Self)
        ensures
            r == Trb::spec_new(
                setup.spec_value(),
                8,
                (TRB_SETUP_STAGE as u32) << 10u32 | TRB_IMMEDIATE_DATA | ((if setup.length == 0 {
                    0u32
                } else if data_in {
                    3u32
                } else {
                    2u32
                }) << 16u32),
            ),
    {
        let transfer_type: u32 = if setup.length == 0 {
            0
        } else if data_in {
            3
        } else {
            2
        };
        Trb::new(setup.value(), 8, (TRB_SETUP_STAGE as u32) << 10u32 | TRB_IMMEDIATE_DATA | (transfer_type << 16u32))
    }

    /// The data stage of a control transfer.
    pub fn data(physical: u64, length: usize, data_in: bool) -> (r: Self)
        ensures
            r == Trb::spec_new(
                physical,
                length as u32,
                (TRB_DATA_STAGE as u32) << 10u32 | (if data_in { 0x1_0000u32 } else { 0u32 }) | TRB_CHAIN,
            ),
    {
        let direction: u32 = if data_in { 0x1_0000 } else { 0 };
        Trb::new(physical, length as u32, (TRB_DATA_STAGE as u32) << 10u32 | direction | TRB_CHAIN)
    }

    /// The status stage of a control transfer, which interrupts on completion.
    pub fn status(data_in: bool) -> (r: Self)
        ensures
            r == Trb::spec_new(
                0,
                0,
                (TRB_STATUS_STAGE as u32) << 10u32 | (if data_in { 0x1_0000u32 } else { 0u32 })
                    | TRB_INTERRUPT_ON_COMPLETION,
            ),
    {
        let direction: u32 = if data_in { 0x1_0000 } else { 0 };
        Trb::new(0, 0, (TRB_STATUS_STAGE as u32) << 10u32 | direction | TRB_INTERRUPT_ON_COMPLETION)
    }

    /// A normal transfer that interrupts on completion.
    pub fn normal(physical: u64, length: usize) -> (r: Self)
        ensures
            r == Trb::spec_new(physical, length as u32, (TRB_NORMAL as u32) << 10u32 | TRB_INTERRUPT_ON_COMPLETION),
    {
        Trb::new(physical, length as u32, (TRB_NORMAL as u32) << 10u32 | TRB_INTERRUPT_ON_COMPLETION)
    }
}

// ---------------------------------------------------------------------------
// Setup packets

#[derive(Clone, Copy, Debug, PartialEq, Eq, Structural)]
pub struct SetupPacket {
    pub request_type: u8,
    pub request: u8,
    pub value: u16,
    pub index: u16,
    pub length: u16,
}

impl SetupPacket {
    /// GET_DESCRIPTOR of the device.
    pub fn get_descriptor(value: u16, length: u16) -> (r: Self)
        ensures
            r == (SetupPacket { request_type: 0x80, request: 6, value, index: 0, length }),
    {
        SetupPacket { request_type: 0x80, request: 6, value, index: 0, length }
    }

    pub fn set_configuration(value: u8) -> (r: Self)
        ensures
            r == (SetupPacket { request_type: 0, request: 9, value: value as u16, index: 0, length: 0 }),
    {
        SetupPacket { request_type: 0, request: 9, value: value as u16, index: 0, length: 0 }
    }

    /// GET_DESCRIPTOR of a hub's class descriptor.
    pub fn hub_descriptor(length: u16) -> (r: Self)
        ensures
            r == (SetupPacket { request_type: 0xa0, request: 6, value: 0x2900, index: 0, length }),
    {
        SetupPacket { request_type: 0xa0, request: 6, value: 0x2900, index: 0, length }
    }

    /// GET_DESCRIPTOR of an interface's HID report descriptor.
    pub fn hid_report_descriptor(interface: u8, length: u16) -> (r: Self)
        ensures
            r == (SetupPacket { request_type: 0x81, request: 6, value: 0x2200, index: interface as u16, length }),
    {
        SetupPacket { request_type: 0x81, request: 6, value: 0x2200, index: interface as u16, length }
    }

    /// CDC SET_LINE_CODING with its seven bytes.
    pub fn cdc_line_coding(interface: u8) -> (r: Self)
        ensures
            r == (SetupPacket { request_type: 0x21, request: 0x20, value: 0, index: interface as u16, length: 7 }),
    {
        SetupPacket { request_type: 0x21, request: 0x20, value: 0, index: interface as u16, length: 7 }
    }

    /// CDC SET_CONTROL_LINE_STATE.
    pub fn cdc_control_line_state(interface: u8, state: u16) -> (r: Self)
        ensures
            r == (SetupPacket { request_type: 0x21, request: 0x22, value: state, index: interface as u16, length: 0 }),
    {
        SetupPacket { request_type: 0x21, request: 0x22, value: state, index: interface as u16, length: 0 }
    }

    /// FTDI SET_BAUD_RATE for 115200 baud.
    pub fn ftdi_baud_rate(interface: u8) -> (r: Self)
        ensures
            r == (SetupPacket { request_type: 0x40, request: 3, value: 0x4138, index: interface as u16, length: 0 }),
    {
        SetupPacket { request_type: 0x40, request: 3, value: 0x4138, index: interface as u16, length: 0 }
    }

    /// FTDI SET_MODEM_CTRL raising DTR and RTS.
    pub fn ftdi_modem_control(interface: u8) -> (r: Self)
        ensures
            r == (SetupPacket { request_type: 0x40, request: 1, value: 0x0303, index: interface as u16, length: 0 }),
    {
        SetupPacket { request_type: 0x40, request: 1, value: 0x0303, index: interface as u16, length: 0 }
    }

    /// The eight packet bytes as one little-endian value.
    pub open spec fn spec_value(self) -> u64 {
        self.request_type as u64 | (self.request as u64) << 8u64 | (self.value as u64) << 16u64
            | (self.index as u64) << 32u64 | (self.length as u64) << 48u64
    }

    pub fn value(self) -> (r: u64)
        ensures
            r == self.spec_value(),
    {
        self.request_type as u64 | (self.request as u64) << 8u64 | (self.value as u64) << 16u64
            | (self.index as u64) << 32u64 | (self.length as u64) << 48u64
    }

    pub fn direction_in(self) -> (r: bool)
        ensures
            r == (self.request_type & 0x80 != 0),
    {
        self.request_type & 0x80 != 0
    }
}

// ---------------------------------------------------------------------------
// Rings

/// The cycle bit as a word.
pub open spec fn cycle_bit(cycle: bool) -> u32 {
    if cycle {
        1
    } else {
        0
    }
}

/// `trb` with its cycle bit replaced.
pub open spec fn with_cycle(trb: Trb, cycle: bool) -> Trb {
    Trb { control: (trb.control & !1u32) | cycle_bit(cycle), ..trb }
}

/// A producer ring of one page: 255 slots and a link back to the start. `enqueue` is the
/// next slot to fill and `cycle` the producer's cycle state.
pub struct TrbRing {
    pub physical: u64,
    pub trbs: Vec<Trb>,
    pub enqueue: usize,
    pub cycle: bool,
}

pub open spec fn zero_trb() -> Trb {
    Trb { parameter_low: 0, parameter_high: 0, status: 0, control: 0 }
}

/// An empty ring's slots: all clear, with the link in the last one.
pub open spec fn fresh_ring(physical: u64) -> Seq<Trb> {
    Seq::new(RING_TRBS as nat, |i: int| zero_trb()).update(
        LINK_INDEX as int,
        Trb::spec_new(physical, 0, (TRB_LINK as u32) << 10u32 | TRB_LINK_TOGGLE_CYCLE),
    )
}

impl TrbRing {
    pub open spec fn wf(&self) -> bool {
        &&& self.trbs@.len() == RING_TRBS
        &&& self.enqueue <= LINK_INDEX
        &&& self.physical + PAGE_SIZE <= u64::MAX
    }

    fn fresh(physical: u64) -> (r: Vec<Trb>)
        ensures
            r@ == fresh_ring(physical),
    {
        let mut trbs: Vec<Trb> = Vec::new();
        let mut i: usize = 0;
        while i < RING_TRBS
            invariant
                i <= RING_TRBS,
                trbs@ == Seq::new(i as nat, |k: int| zero_trb()),
            decreases RING_TRBS - i,
        {
            trbs.push(Trb { parameter_low: 0, parameter_high: 0, status: 0, control: 0 });
            assert(trbs@ =~= Seq::new((i + 1) as nat, |k: int| zero_trb()));
            i = i + 1;
        }
        trbs.set(LINK_INDEX, Trb::link(physical));
        assert(trbs@ =~= fresh_ring(physical));
        trbs
    }

    /// An empty ring in the page at `physical`.
    pub fn new(physical: u64) -> (r: Self)
        requires
            physical + PAGE_SIZE <= u64::MAX,
        ensures
            r.wf(),
            r.physical == physical,
            r.trbs@ == fresh_ring(physical),
            r.enqueue == 0,
            r.cycle,
    {
        TrbRing { physical, trbs: Self::fresh(physical), enqueue: 0, cycle: true }
    }

    /// The address of the next slot with the cycle state in bit 0, as the controller
    /// expects it in CRCR or an endpoint context.
    pub fn next_pointer(&self) -> (r: u64)
        requires
            self.wf(),
        ensures
            r == ((self.physical + self.enqueue * 16) as u64 | (if self.cycle { 1u64 } else { 0u64 })),
    {
        (self.physical + (self.enqueue * 16) as u64) | (if self.cycle { 1u64 } else { 0u64 })
    }

    /// Places `trb` in the next slot with the producer's cycle bit. At the link slot the
    /// link is rewritten with the current cycle bit, and filling restarts at slot zero
    /// with the cycle state toggled.
    pub fn push(&mut self, trb: Trb) -> (r: Result<(), HostError>)
        requires
            old(self).wf(),
        ensures
            final(self).wf(),
            r is Ok,
            final(self).physical == old(self).physical,
            old(self).enqueue < LINK_INDEX ==> {
                &&& final(self).trbs@ == old(self).trbs@.update(old(self).enqueue as int, with_cycle(trb, old(self).cycle))
                &&& final(self).enqueue == old(self).enqueue + 1
                &&& final(self).cycle == old(self).cycle
            },
            old(self).enqueue == LINK_INDEX ==> {
                &&& final(self).trbs@ == old(self).trbs@.update(
                    LINK_INDEX as int,
                    with_cycle(
                        Trb::spec_new(old(self).physical, 0, (TRB_LINK as u32) << 10u32 | TRB_LINK_TOGGLE_CYCLE),
                        old(self).cycle,
                    ),
                ).update(0, with_cycle(trb, !old(self).cycle))
                &&& final(self).enqueue == 1
                &&& final(self).cycle == !old(self).cycle
            },
    {
        if self.enqueue == LINK_INDEX {
            let link = Trb::link_with_cycle(self.physical, self.cycle);
            self.trbs.set(LINK_INDEX, link);
            self.enqueue = 0;
            self.cycle = !self.cycle;
        }
        let marked = Trb { control: (trb.control & !1u32) | (if self.cycle { 1u32 } else { 0u32 }), ..trb };
        self.trbs.set(self.enqueue, marked);
        self.enqueue = self.enqueue + 1;
        Ok(())
    }

    /// Empties the ring.
    pub fn reset(&mut self)
        requires
            old(self).wf(),
        ensures
            final(self).wf(),
            final(self).physical == old(self).physical,
            final(self).trbs@ == fresh_ring(old(self).physical),
            final(self).enqueue == 0,
            final(self).cycle,
    {
        self.trbs = Self::fresh(self.physical);
        self.enqueue = 0;
        self.cycle = true;
    }
}

/// A completion or transfer event, decoded.
#[derive(Clone, Copy, Debug, PartialEq, Eq, Structural)]
pub struct Event {
    pub kind: u8,
    pub completion: u8,
    pub slot: u8,
    pub endpoint: u8,
    pub remaining: u32,
}

pub open spec fn event_of(trb: Trb) -> Event {
    Event {
        kind: ((trb.control >> 10u32) & 0x3f) as u8,
        completion: (trb.status >> 24u32) as u8,
        slot: (trb.control >> 24u32) as u8,
        endpoint: ((trb.control >> 16u32) & 0x1f) as u8,
        remaining: trb.status & 0x00ff_ffff,
    }
}

pub fn decode_event(trb: Trb) -> (r: Event)
    ensures
        r == event_of(trb),
{
    Event {
        kind: ((trb.control >> 10u32) & 0x3f) as u8,
        completion: (trb.status >> 24u32) as u8,
        slot: (trb.control >> 24u32) as u8,
        endpoint: ((trb.control >> 16u32) & 0x1f) as u8,
        remaining: trb.status & 0x00ff_ffff,
    }
}

/// The consumer side of a one-segment event ring.
pub struct EventRing {
    pub physical: u64,
    pub dequeue: usize,
    pub cycle: bool,
}

impl EventRing {
    pub open spec fn wf(&self) -> bool {
        &&& self.dequeue < RING_TRBS
        &&& self.physical + PAGE_SIZE <= u64::MAX
    }

    pub fn new(physical: u64) -> (r: Self)
        requires
            physical + PAGE_SIZE <= u64::MAX,
        ensures
            r.wf(),
            r == (EventRing { physical, dequeue: 0, cycle: true }),
    {
        EventRing { physical, dequeue: 0, cycle: true }
    }

    /// Takes the TRB read at the dequeue slot: when its cycle bit matches the consumer's
    /// it is an event, and the ring moves on (wrapping with the cycle state toggled);
    /// otherwise the ring is empty.
    pub fn consume(&mut self, trb: Trb) -> (r: Option<Event>)
        requires
            old(self).wf(),
        ensures
            final(self).wf(),
            final(self).physical == old(self).physical,
            ((trb.control & 1 != 0) != old(self).cycle) ==> r is None && *final(self) == *old(self),
            ((trb.control & 1 != 0) == old(self).cycle) ==> {
                &&& r == Some(event_of(trb))
                &&& old(self).dequeue + 1 < RING_TRBS ==> final(self).dequeue == old(self).dequeue + 1
                    && final(self).cycle == old(self).cycle
                &&& old(self).dequeue + 1 == RING_TRBS ==> final(self).dequeue == 0 && final(self).cycle
                    == !old(self).cycle
            },
    {
        if (trb.control & 1 != 0) != self.cycle {
            return None;
        }
        self.dequeue = self.dequeue + 1;
        if self.dequeue == RING_TRBS {
            self.dequeue = 0;
            self.cycle = !self.cycle;
        }
        Some(decode_event(trb))
    }

    /// The event ring dequeue pointer value that also clears the handler-busy bit.
    pub fn dequeue_pointer(&self) -> (r: u64)
        requires
            self.wf(),
        ensures
            r == ((self.physical + self.dequeue * 16) as u64 | ERDP_EVENT_HANDLER_BUSY),
    {
        (self.physical + (self.dequeue * 16) as u64) | ERDP_EVENT_HANDLER_BUSY
    }
}

/// What the result of a command tells about slot enabling: the slot, or the failure.
pub fn enabled_slot(event: Event) -> (r: Result<u8, HostError>)
    ensures
        r == (if event.completion != COMPLETION_SUCCESS || event.slot == 0 {
            Err::<u8, HostError>(HostError::Completion(event.completion))
        } else {
            Ok::<u8, HostError>(event.slot)
        }),
{
    if event.completion != COMPLETION_SUCCESS || event.slot == 0 {
        return Err(HostError::Completion(event.completion));
    }
    Ok(event.slot)
}

/// A command's completion: success, or the completion code as the error.
pub fn command_result(event: Event) -> (r: Result<(), HostError>)
    ensures
        r == (if event.completion == COMPLETION_SUCCESS {
            Ok::<(), HostError>(())
        } else {
            Err::<(), HostError>(HostError::Completion(event.completion))
        }),
{
    if event.completion == COMPLETION_SUCCESS {
        Ok(())
    } else {
        Err(HostError::Completion(event.completion))
    }
}

/// The control word of a command TRB of type `kind` for slot `slot`.
pub fn slot_command(kind: u8, slot: u8) -> (r: u32)
    ensures
        r == ((kind as u32) << 10u32 | (slot as u32) << 24u32),
{
    (kind as u32) << 10u32 | (slot as u32) << 24u32
}

/// The bytes of a transfer that arrived: the requested length less what the controller
/// reports as remaining.
pub fn transferred(length: usize, remaining: u32) -> (r: usize)
    ensures
        r == (if remaining as int >= length { 0 } else { length - remaining }),
{
    if remaining as usize >= length {
        0
    } else {
        length - remaining as usize
    }
}

/// What the hot-plug poll does: remove the device when a port went away while one was
/// enumerated, enumerate when one appeared while none was.
#[derive(Clone, Copy, Debug, PartialEq, Eq, Structural)]
pub enum HotplugAction {
    Remove,
    Enumerate,
    Nothing,
}

pub fn hotplug_action(connected: u8, previous: u8, has_device: bool) -> (r: HotplugAction)
    ensures
        r == (if connected < previous && has_device {
            HotplugAction::Remove
        } else if connected > previous && !has_device {
            HotplugAction::Enumerate
        } else {
            HotplugAction::Nothing
        }),
{
    if connected < previous && has_device {
        HotplugAction::Remove
    } else if connected > previous && !has_device {
        HotplugAction::Enumerate
    } else {
        HotplugAction::Nothing
    }
}

// ---------------------------------------------------------------------------
// Configuration descriptors

#[derive(Clone, Copy, Debug, PartialEq, Eq, Structural)]
pub struct EndpointInfo {
    pub id: u8,
    pub max_packet: u16,
    pub interval: u8,
    pub transfer_type: u8,
}

/// What a configuration offers the driver.
#[derive(Clone, Copy, Debug, PartialEq, Eq, Structural)]
pub struct ConfigurationInfo {
    pub value: u8,
    pub interrupt_in: Option<EndpointInfo>,
    pub bulk_in: Option<EndpointInfo>,
    pub bulk_out: Option<EndpointInfo>,
    pub hub: bool,
    pub hid: bool,
    pub serial: bool,
    pub serial_protocol: Option<SerialProtocol>,
    pub storage: bool,
    pub interface: u8,
    pub control_interface: u8,
    pub report_length: u16,
}

/// The scan of a configuration's descriptors so far, with the kind of the interface
/// being described.
#[derive(Clone, Copy, Debug, PartialEq, Eq, Structural)]
pub struct ConfigScan {
    pub interrupt_in: Option<EndpointInfo>,
    pub bulk_in: Option<EndpointInfo>,
    pub bulk_out: Option<EndpointInfo>,
    pub hub: bool,
    pub hid: bool,
    pub serial: bool,
    pub storage: bool,
    pub interface: u8,
    pub control_interface: u8,
    pub control_selected: bool,
    pub report_length: u16,
    pub hid_interface: bool,
    pub serial_interface: bool,
    pub storage_interface: bool,
}

/// An interface descriptor at `o`: it sets the kind of the interface that follows; the
/// first HID interface and the first serial control interface are remembered.
pub open spec fn scan_interface(b: Seq<u8>, o: int, ftdi: bool, s: ConfigScan) -> ConfigScan {
    let number = b[o + 2];
    let class = b[o + 5];
    let hid_i = class == 3;
    let serial_i = class == 2 || class == 0x0a || ftdi;
    let storage_i = class == 8 && b[o + 6] == 6 && b[o + 7] == 0x50;
    let pick_control = (class == 2 || ftdi) && serial_i && !s.control_selected;
    ConfigScan {
        interface: if hid_i && !s.hid { number } else { s.interface },
        control_interface: if pick_control { number } else { s.control_interface },
        control_selected: s.control_selected || pick_control,
        hub: s.hub || class == 9,
        hid: s.hid || hid_i,
        serial: s.serial || serial_i,
        storage: s.storage || storage_i,
        hid_interface: hid_i,
        serial_interface: serial_i,
        storage_interface: storage_i,
        ..s
    }
}

/// An endpoint descriptor at `o`: the HID interface's first interrupt IN endpoint, and
/// a serial or storage interface's first bulk IN and OUT endpoints, are kept.
pub open spec fn scan_endpoint(b: Seq<u8>, o: int, s: ConfigScan) -> ConfigScan {
    let address = b[o + 2];
    let attributes = b[o + 3] & 3;
    let max_packet = ((b[o + 4] as u16) | ((b[o + 5] as u16) << 8u16)) & 0x07ff;
    let number = address & 0x0f;
    if max_packet == 0 || number == 0 {
        s
    } else {
        let input = address & 0x80 != 0;
        let transfer_type: u8 = if attributes == 2 {
            if input { 6 } else { 2 }
        } else if attributes == 3 {
            if input { 7 } else { 3 }
        } else {
            0
        };
        let endpoint = EndpointInfo {
            id: (number * 2 + (if input { 1u8 } else { 0u8 })) as u8,
            max_packet,
            interval: b[o + 6],
            transfer_type,
        };
        if s.hid_interface && transfer_type == 7 && s.interrupt_in is None {
            ConfigScan { interrupt_in: Some(endpoint), ..s }
        } else if (s.serial_interface || s.storage_interface) && transfer_type == 6 {
            if s.bulk_in is None {
                ConfigScan { bulk_in: Some(endpoint), ..s }
            } else {
                s
            }
        } else if (s.serial_interface || s.storage_interface) && transfer_type == 2 && s.bulk_out is None {
            ConfigScan { bulk_out: Some(endpoint), ..s }
        } else {
            s
        }
    }
}

/// One descriptor of `length` bytes at `o`.
pub open spec fn scan_descriptor(b: Seq<u8>, o: int, length: int, ftdi: bool, s: ConfigScan) -> ConfigScan {
    let kind = b[o + 1];
    let s1 = if kind == 4 && length >= 9 {
        scan_interface(b, o, ftdi, s)
    } else {
        s
    };
    let s2 = if kind == 0x21 && length >= 9 && s1.hid_interface && b[o + 6] == 0x22 {
        ConfigScan { report_length: ((b[o + 7] as u16) | ((b[o + 8] as u16) << 8u16)) as u16, ..s1 }
    } else {
        s1
    };
    if kind == 5 && length >= 7 {
        scan_endpoint(b, o, s2)
    } else {
        s2
    }
}

/// The descriptors from `offset` to `total`; `None` when one is shorter than two bytes
/// or runs past the end.
pub open spec fn scan_descriptors(b: Seq<u8>, total: int, offset: int, ftdi: bool, s: ConfigScan) -> Option<ConfigScan>
    decreases total - offset,
{
    if offset + 2 > total {
        Some(s)
    } else {
        let length = b[offset] as int;
        if length < 2 || offset + length > total {
            None
        } else {
            scan_descriptors(b, total, offset + length, ftdi, scan_descriptor(b, offset, length, ftdi, s))
        }
    }
}

pub open spec fn scan_start(device_class: u8) -> ConfigScan {
    ConfigScan {
        interrupt_in: None,
        bulk_in: None,
        bulk_out: None,
        hub: device_class == 9,
        hid: false,
        serial: false,
        storage: false,
        interface: 0,
        control_interface: 0,
        control_selected: false,
        report_length: 0,
        hid_interface: false,
        serial_interface: false,
        storage_interface: false,
    }
}

/// The configuration the first `total_length` bytes of `b` describe; FTDI's serial
/// adapter is serial whatever its interface class says, and any other serial interface
/// is CDC ACM.
pub open spec fn configuration_of(b: Seq<u8>, total_length: int, device_class: u8, vendor_id: u16, product_id: u16) -> Result<
    ConfigurationInfo,
    HostError,
> {
    let ftdi = vendor_id == FTDI_VENDOR_ID && product_id == FTDI_SERIAL_PRODUCT_ID;
    if total_length < 9 || b[0] < 9 || b[1] != 2 {
        Err(HostError::Protocol)
    } else {
        match scan_descriptors(b, total_length, 0, ftdi, scan_start(device_class)) {
            None => Err(HostError::Protocol),
            Some(s) => Ok(
                ConfigurationInfo {
                    value: b[5],
                    interrupt_in: s.interrupt_in,
                    bulk_in: s.bulk_in,
                    bulk_out: s.bulk_out,
                    hub: s.hub,
                    hid: s.hid,
                    serial: s.serial,
                    serial_protocol: if ftdi {
                        Some(SerialProtocol::Ftdi)
                    } else if s.serial {
                        Some(SerialProtocol::CdcAcm)
                    } else {
                        None
                    },
                    storage: s.storage,
                    interface: s.interface,
                    control_interface: s.control_interface,
                    report_length: s.report_length,
                },
            ),
        }
    }
}

fn interface_step(b: &[u8], o: usize, ftdi: bool, s: ConfigScan) -> (r: ConfigScan)
    requires
        o + 9 <= b@.len(),
    ensures
        r == scan_interface(b@, o as int, ftdi, s),
{
    let _n = b.len();
    let number = b[o + 2];
    let class = b[o + 5];
    let hid_i = class == 3;
    let serial_i = class == 2 || class == 0x0a || ftdi;
    let storage_i = class == 8 && b[o + 6] == 6 && b[o + 7] == 0x50;
    let pick_control = (class == 2 || ftdi) && serial_i && !s.control_selected;
    ConfigScan {
        interface: if hid_i && !s.hid { number } else { s.interface },
        control_interface: if pick_control { number } else { s.control_interface },
        control_selected: s.control_selected || pick_control,
        hub: s.hub || class == 9,
        hid: s.hid || hid_i,
        serial: s.serial || serial_i,
        storage: s.storage || storage_i,
        hid_interface: hid_i,
        serial_interface: serial_i,
        storage_interface: storage_i,
        ..s
    }
}

fn endpoint_step(b: &[u8], o: usize, s: ConfigScan) -> (r: ConfigScan)
    requires
        o + 7 <= b@.len(),
    ensures
        r == scan_endpoint(b@, o as int, s),
{
    let _n = b.len();
    let address = b[o + 2];
    let attributes = b[o + 3] & 3;
    let max_packet = ((b[o + 4] as u16) | ((b[o + 5] as u16) << 8u16)) & 0x07ff;
    let number = address & 0x0f;
    if max_packet == 0 || number == 0 {
        return s;
    }
    let input = address & 0x80 != 0;
    let transfer_type: u8 = if attributes == 2 {
        if input { 6 } else { 2 }
    } else if attributes == 3 {
        if input { 7 } else { 3 }
    } else {
        0
    };
    proof {
        assert(number < 16) by (bit_vector)
            requires
                number == address & 0x0f,
        ;
    }
    let endpoint = EndpointInfo {
        id: number * 2 + (if input { 1u8 } else { 0u8 }),
        max_packet,
        interval: b[o + 6],
        transfer_type,
    };
    if s.hid_interface && transfer_type == 7 && s.interrupt_in.is_none() {
        ConfigScan { interrupt_in: Some(endpoint), ..s }
    } else if (s.serial_interface || s.storage_interface) && transfer_type == 6 {
        if s.bulk_in.is_none() {
            ConfigScan { bulk_in: Some(endpoint), ..s }
        } else {
            s
        }
    } else if (s.serial_interface || s.storage_interface) && transfer_type == 2 && s.bulk_out.is_none() {
        ConfigScan { bulk_out: Some(endpoint), ..s }
    } else {
        s
    }
}

fn descriptor_step(b: &[u8], o: usize, length: usize, ftdi: bool, s: ConfigScan) -> (r: ConfigScan)
    requires
        o + length <= b@.len(),
        length >= 2,
    ensures
        r == scan_descriptor(b@, o as int, length as int, ftdi, s),
{
    let _n = b.len();
    let kind = b[o + 1];
    let s1 = if kind == 4 && length >= 9 {
        interface_step(b, o, ftdi, s)
    } else {
        s
    };
    let s2 = if kind == 0x21 && length >= 9 && s1.hid_interface && b[o + 6] == 0x22 {
        ConfigScan { report_length: (b[o + 7] as u16) | ((b[o + 8] as u16) << 8u16), ..s1 }
    } else {
        s1
    };
    if kind == 5 && length >= 7 {
        endpoint_step(b, o, s2)
    } else {
        s2
    }
}

/// The configuration the first `total_length` bytes of a configuration descriptor
/// read into `b` describe.
pub fn parse_configuration(b: &[u8], total_length: usize, device_class: u8, vendor_id: u16, product_id: u16) -> (r:
    Result<ConfigurationInfo, HostError>)
    requires
        total_length <= b@.len(),
    ensures
        r == configuration_of(b@, total_length as int, device_class, vendor_id, product_id),
{
    if total_length < 9 || b[0] < 9 || b[1] != 2 {
        return Err(HostError::Protocol);
    }
    let ftdi = vendor_id == FTDI_VENDOR_ID && product_id == FTDI_SERIAL_PRODUCT_ID;
    let mut scan = ConfigScan {
        interrupt_in: None,
        bulk_in: None,
        bulk_out: None,
        hub: device_class == 9,
        hid: false,
        serial: false,
        storage: false,
        interface: 0,
        control_interface: 0,
        control_selected: false,
        report_length: 0,
        hid_interface: false,
        serial_interface: false,
        storage_interface: false,
    };
    let mut offset: usize = 0;
    while total_length - offset >= 2
        invariant
            total_length <= b@.len(),
            offset <= total_length,
            total_length >= 9 && b@[0] >= 9 && b@[1] == 2,
            ftdi == (vendor_id == FTDI_VENDOR_ID && product_id == FTDI_SERIAL_PRODUCT_ID),
            scan_descriptors(b@, total_length as int, 0, ftdi, scan_start(device_class)) == scan_descriptors(
                b@,
                total_length as int,
                offset as int,
                ftdi,
                scan,
            ),
        decreases total_length - offset,
    {
        let length = b[offset] as usize;
        if length < 2 || length > total_length - offset {
            return Err(HostError::Protocol);
        }
        scan = descriptor_step(b, offset, length, ftdi, scan);
        offset = offset + length;
    }
    Ok(
        ConfigurationInfo {
            value: b[5],
            interrupt_in: scan.interrupt_in,
            bulk_in: scan.bulk_in,
            bulk_out: scan.bulk_out,
            hub: scan.hub,
            hid: scan.hid,
            serial: scan.serial,
            serial_protocol: if ftdi {
                Some(SerialProtocol::Ftdi)
            } else if scan.serial {
                Some(SerialProtocol::CdcAcm)
            } else {
                None
            },
            storage: scan.storage,
            interface: scan.interface,
            control_interface: scan.control_interface,
            report_length: scan.report_length,
        },
    )
}

// ---------------------------------------------------------------------------
// Contexts

/// The add-context flags and the context-entries count for configuring a
/// configuration's endpoints: slot and control endpoint always, plus one bit per
/// endpoint, and the highest endpoint id (at least one).
pub open spec fn endpoint_flags_of(config: ConfigurationInfo) -> (u32, u8) {
    flag_added(flag_added(flag_added((1u32, 1u8), config.interrupt_in), config.bulk_in), config.bulk_out)
}

/// The flags and entries count with one more endpoint.
pub open spec fn flag_added(flags: (u32, u8), e: Option<EndpointInfo>) -> (u32, u8) {
    match e {
        Some(e) => (flags.0 | (1u32 << e.id as u32), if e.id > flags.1 { e.id } else { flags.1 }),
        None => flags,
    }
}

fn add_endpoint_flag(flags: (u32, u8), endpoint: Option<EndpointInfo>) -> (r: (u32, u8))
    requires
        endpoint matches Some(e) ==> e.id < 32,
    ensures
        r == flag_added(flags, endpoint),
{
    match endpoint {
        Some(e) => (flags.0 | (1u32 << e.id as u32), if e.id > flags.1 { e.id } else { flags.1 }),
        None => flags,
    }
}

pub fn endpoint_flags(config: &ConfigurationInfo) -> (r: (u32, u8))
    requires
        config.interrupt_in matches Some(e) ==> e.id < 32,
        config.bulk_in matches Some(e) ==> e.id < 32,
        config.bulk_out matches Some(e) ==> e.id < 32,
    ensures
        r == endpoint_flags_of(*config),
{
    let a = add_endpoint_flag((1u32, 1u8), config.interrupt_in);
    let b = add_endpoint_flag(a, config.bulk_in);
    add_endpoint_flag(b, config.bulk_out)
}

/// The first two words of a slot context: speed and context entries, and the root
/// hub port (numbered from one).
pub fn slot_context(port: u8, speed: UsbSpeed, entries: u8) -> (r: (u32, u32))
    ensures
        r == ((speed_code(speed) as u32) << 20u32 | (entries as u32) << 27u32, (((port as u32) + 1) as u32) << 16u32),
{
    ((speed.raw() as u32) << 20u32 | (entries as u32) << 27u32, ((port as u32) + 1) << 16u32)
}

pub open spec fn speed_code(speed: UsbSpeed) -> u8 {
    match speed {
        UsbSpeed::Low => 2u8,
        UsbSpeed::Full => 1u8,
        UsbSpeed::High => 3u8,
        UsbSpeed::Super => 4u8,
        UsbSpeed::SuperPlus => 5u8,
        UsbSpeed::Unknown(v) => v,
    }
}

/// Where endpoint context `endpoint` lies in an input context with contexts of
/// `context_size` bytes, and its words: interval, error count with type and packet size,
/// the dequeue pointer, and the average TRB length.
pub fn endpoint_context(context_size: u8, endpoint: u8, dequeue: u64, max_packet: u16, endpoint_type: u8, interval: u8) -> (r:
    (usize, u32, u32, u64, u32))
    ensures
        r == (
            (32 + context_size * endpoint) as usize,
            (interval as u32) << 16u32,
            (3u32 << 1u32) | (endpoint_type as u32) << 3u32 | (max_packet as u32) << 16u32,
            dequeue,
            8u32,
        ),
{
    proof {
        assert(context_size * endpoint <= 255 * 255) by (nonlinear_arith)
            requires
                context_size <= 255,
                endpoint <= 255,
        ;
    }
    (
        32 + context_size as usize * endpoint as usize,
        (interval as u32) << 16u32,
        (3u32 << 1u32) | (endpoint_type as u32) << 3u32 | (max_packet as u32) << 16u32,
        dequeue,
        8,
    )
}

/// Checks the controller kinds' names, capability decoding, port speed decoding and the
/// TRB builders on known values.
pub fn contract_self_check() -> (r: bool)
    ensures
        r,
{
    if !bytes_equal(kind_name(HostControllerKind::Ehci).as_bytes(), "ehci".as_bytes()) || !bytes_equal(
        kind_name(HostControllerKind::Ohci).as_bytes(),
        "ohci".as_bytes(),
    ) {
        return false;
    }
    assert((0x0500_0408u32 & 0xff) as u8 == 8u8 && ((0x0500_0408u32 >> 8u32) & 0x7ff) as u16 == 4u16
        && (0x0500_0408u32 >> 24u32) as u8 == 5u8 && 1u32 & 1 != 0 && (0u32 & 0xff) as u8 == 0u8
        && (0x400u32 & 0x3c00u32) >> 10u32 == 1u32
        && ((((2u32 << 10u32) | 0x40u32 | (2u32 << 16u32)) >> 10u32) & 0x3f) as u8 == 2u8 && 8u32 & 0x1ffff == 8u32
        && ((((1u32 << 10u32) | 0x20u32) >> 10u32) & 0x3f) as u8 == 1u8 && ((((6u32 << 10u32) | 2u32) >> 10u32)
        & 0x3f) as u8 == 6u8) by (bit_vector);
    match parse_capabilities(0x0500_0408, 1) {
        Some((8, 4, 5, true)) => {},
        _ => return false,
    }
    if parse_capabilities(0, 0).is_some() {
        return false;
    }
    if UsbSpeed::from_port_status(0x400) != UsbSpeed::Full || !bytes_equal(
        UsbSpeed::High.name().as_bytes(),
        "high".as_bytes(),
    ) {
        return false;
    }
    let setup = SetupPacket::get_descriptor(0x0100, 18);
    let trb = Trb::setup(setup, false);
    trb.kind() == TRB_SETUP_STAGE && trb.status & 0x1ffff == 8 && Trb::normal(0x1000, 64).kind() == TRB_NORMAL
        && Trb::link(0x2000).kind() == TRB_LINK
}


/// The largest HID report descriptor the driver reads.
pub const HID_REPORT_DESCRIPTOR_MAX: usize = 256;

/// The device descriptor check of enumeration, on the first `length` bytes the device
/// returned in the transfer buffer `data`: a descriptor of at least 12 bytes whose type
/// byte is 1 gives the device class (byte 4), the vendor id (bytes 8..10) and the
/// product id (bytes 10..12), little-endian; anything else is a protocol error.
pub fn device_descriptor_info(data: &[u8], length: usize) -> (r: Result<(u8, u16, u16), HostError>)
    requires
        12 <= data@.len(),
    ensures
        length < 12 || data@[1] != 1 ==> r == Err::<(u8, u16, u16), HostError>(HostError::Protocol),
        !(length < 12 || data@[1] != 1) ==> (r matches Ok((class, vendor, product)) && class == data@[4]
            && vendor as int == crate::bytes::spec_le_u16(data@, 8) && product as int
            == crate::bytes::spec_le_u16(data@, 10)),
{
    if length < 12 || data[1] != 1 {
        return Err(HostError::Protocol);
    }
    Ok((data[4], crate::bytes::le_u16(data, 8), crate::bytes::le_u16(data, 10)))
}

/// The configuration header check of enumeration, on the first `header_length` bytes
/// returned: a header of at least 9 bytes whose type byte is 2 gives the total length
/// of the configuration's descriptors (bytes 2..4, little-endian), which must lie in
/// `9..=PAGE_SIZE`; anything else is a protocol error.
pub fn config_total_length(data: &[u8], header_length: usize) -> (r: Result<usize, HostError>)
    requires
        4 <= data@.len(),
    ensures
        header_length < 9 || data@[1] != 2 ==> r == Err::<usize, HostError>(HostError::Protocol),
        !(header_length < 9 || data@[1] != 2) ==> {
            let total = crate::bytes::spec_le_u16(data@, 2);
            &&& 9 <= total <= PAGE_SIZE ==> r == Ok::<usize, HostError>(total as usize)
            &&& !(9 <= total <= PAGE_SIZE) ==> r == Err::<usize, HostError>(HostError::Protocol)
        },
{
    if header_length < 9 || data[1] != 2 {
        return Err(HostError::Protocol);
    }
    let total = crate::bytes::le_u16(data, 2) as usize;
    if total < 9 || total > PAGE_SIZE {
        return Err(HostError::Protocol);
    }
    Ok(total)
}

/// The HID report descriptor length enumeration reads for `configuration`: none for a
/// device without a HID interface; for a HID device its announced length, which must
/// be between 1 and `HID_REPORT_DESCRIPTOR_MAX` (else a protocol error).
pub fn hid_report_length(configuration: &ConfigurationInfo) -> (r: Result<Option<usize>, HostError>)
    ensures
        !configuration.hid ==> r == Ok::<Option<usize>, HostError>(None),
        configuration.hid && (configuration.report_length == 0 || configuration.report_length
            > HID_REPORT_DESCRIPTOR_MAX) ==> r == Err::<Option<usize>, HostError>(HostError::Protocol),
        configuration.hid && 0 < configuration.report_length <= HID_REPORT_DESCRIPTOR_MAX ==> r == Ok::<
            Option<usize>,
            HostError,
        >(Some(configuration.report_length as usize)),
{
    if !configuration.hid {
        return Ok(None);
    }
    if configuration.report_length == 0 || configuration.report_length as usize > HID_REPORT_DESCRIPTOR_MAX {
        return Err(HostError::Protocol);
    }
    Ok(Some(configuration.report_length as usize))
}

/// The class enumeration reports for a configured device: a HID interface makes it a
/// HID device of the kind its report descriptor gave (`Other` when there is none), and
/// otherwise mass storage comes before serial.
pub open spec fn spec_usb_class_of(configuration: ConfigurationInfo, hid: Option<hid::Kind>) -> UsbClass {
    if configuration.hid {
        UsbClass::Hid(
            match hid {
                Some(kind) => kind,
                None => hid::Kind::Other,
            },
        )
    } else if configuration.storage {
        UsbClass::Storage
    } else if configuration.serial {
        UsbClass::Serial
    } else {
        UsbClass::Other
    }
}

pub fn usb_class_of(configuration: &ConfigurationInfo, hid: Option<hid::Kind>) -> (r: UsbClass)
    ensures
        r == spec_usb_class_of(*configuration, hid),
{
    let kind = match hid {
        Some(kind) => kind,
        None => hid::Kind::Other,
    };
    if configuration.hid {
        UsbClass::Hid(kind)
    } else if configuration.storage {
        UsbClass::Storage
    } else if configuration.serial {
        UsbClass::Serial
    } else {
        UsbClass::Other
    }
}

} // verus!
