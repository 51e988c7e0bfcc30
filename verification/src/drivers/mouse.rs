use vstd::prelude::*;
use crate::input::{Buttons, Event, InputQueue, PointerEvent};
use crate::drivers::ps2::Controller;

verus! {

pub const RESET_DEFAULTS: u8 = 0xf6;
pub const ENABLE_REPORTING: u8 = 0xf4;
pub const SET_SAMPLE_RATE: u8 = 0xf3;
/// How many bytes one poll takes from the controller at most.
pub const POLL_LIMIT: usize = 32;

#[derive(Clone, Copy, Debug, PartialEq, Eq, Structural)]
pub enum InitResult {
    Ready,
    Unsupported,
    Failed,
}

#[derive(Clone, Copy, Debug, PartialEq, Eq, Structural)]
pub struct Status {
    pub id: u8,
    pub wheel: bool,
    pub extra_buttons: bool,
    pub packet_len: usize,
    pub parser_pending: bool,
    pub buttons: Buttons,
    pub events_dropped: u64,
}

/// What the mouse identified itself as: a wheel adds a fourth packet byte, which
/// may also carry two extra buttons.
#[derive(Clone, Copy, Debug, PartialEq, Eq, Structural)]
pub struct Capabilities {
    pub id: u8,
    pub wheel: bool,
    pub extra_buttons: bool,
}

impl Capabilities {
    pub fn standard() -> (r: Self)
        ensures
            r == (Capabilities { id: 0, wheel: false, extra_buttons: false }),
    {
        Capabilities { id: 0, wheel: false, extra_buttons: false }
    }

    #[verifier::allow_in_spec]
    pub fn packet_len(self) -> usize
        returns
            (if self.wheel {
                4usize
            } else {
                3usize
            }),
    {
        if self.wheel {
            4
        } else {
            3
        }
    }
}

/// A movement byte with its sign bit from the status byte.
#[verifier::allow_in_spec]
pub fn signed_byte(byte: u8, negative: bool) -> i16
    returns
        (if negative {
            (byte - 256) as i16
        } else {
            byte as i16
        }),
{
    if negative {
        byte as i16 - 256
    } else {
        byte as i16
    }
}

/// A four-bit two's complement wheel movement: with bit 3 set, the low four bits less
/// 16; otherwise the byte read as a signed value.
pub fn signed_nibble(nibble: u8) -> (r: i8)
    ensures
        nibble & 0x08 != 0 ==> r == nibble % 16 - 16,
        nibble & 0x08 == 0 ==> r == nibble as i8,
        nibble < 16 ==> r == (if nibble >= 8 {
            nibble - 16
        } else {
            nibble as int
        }),
{
    assert((nibble & 0x08 != 0 ==> (nibble & 0x0f) == nibble % 16 && nibble % 16 >= 8) && (nibble < 16 ==> (
    nibble & 0x08 != 0 <==> nibble >= 8))) by (bit_vector);
    if nibble & 0x08 != 0 {
        (nibble & 0x0f) as i8 - 16
    } else {
        nibble as i8
    }
}

/// The pointer event a complete packet decodes to, with the button state before it;
/// packets with an overflow bit set are discarded.
pub open spec fn decode_packet(bytes: Seq<u8>, capabilities: Capabilities, previous: u8) -> Option<
    PointerEvent,
> {
    let status = bytes[0];
    if status & 0xc0 != 0 {
        None
    } else {
        let wheel_byte = bytes[3];
        let base = status & 7;
        let extra: u8 = if capabilities.wheel && capabilities.extra_buttons {
            (if wheel_byte & 0x10 != 0 {
                8u8
            } else {
                0u8
            }) | (if wheel_byte & 0x20 != 0 {
                16u8
            } else {
                0u8
            })
        } else {
            0
        };
        let buttons = base | extra;
        let nibble = wheel_byte & 0x0f;
        Some(
            PointerEvent {
                dx: signed_byte(bytes[1], status & 0x10 != 0),
                dy: (-signed_byte(bytes[2], status & 0x20 != 0)) as i16,
                wheel: if capabilities.wheel {
                    (if nibble >= 8 {
                        nibble - 16
                    } else {
                        nibble as int
                    }) as i8
                } else {
                    0
                },
                buttons: Buttons(buttons),
                changed: Buttons(buttons ^ previous),
            },
        )
    }
}

/// The packet assembler: bytes of the packet so far, what the mouse reports, and
/// the buttons last reported.
pub struct PacketParser {
    pub bytes: Vec<u8>,
    pub len: usize,
    pub capabilities: Capabilities,
    pub buttons: Buttons,
}

impl PacketParser {
    pub open spec fn wf(&self) -> bool {
        self.bytes@.len() == 4 && self.len < self.capabilities.packet_len()
    }

    pub fn new() -> (r: Self)
        ensures
            r.wf(),
            r.len == 0,
            r.capabilities == (Capabilities { id: 0, wheel: false, extra_buttons: false }),
            r.buttons.0 == 0,
    {
        PacketParser {
            bytes: vec![0u8, 0u8, 0u8, 0u8],
            len: 0,
            capabilities: Capabilities::standard(),
            buttons: Buttons::empty(),
        }
    }

    /// Starts over with new capabilities.
    pub fn configure(&mut self, capabilities: Capabilities)
        requires
            old(self).wf(),
        ensures
            final(self).wf(),
            final(self).capabilities == capabilities,
            final(self).len == 0,
            final(self).buttons.0 == 0,
    {
        self.capabilities = capabilities;
        self.len = 0;
        self.buttons = Buttons::empty();
    }

    /// Takes one byte: a packet starts only at a byte with the always-one bit set,
    /// and a complete packet decodes to an event.
    pub fn feed(&mut self, byte: u8) -> (r: Option<PointerEvent>)
        requires
            old(self).wf(),
        ensures
            final(self).wf(),
            final(self).capabilities == old(self).capabilities,
            old(self).len == 0 && byte & 0x08 == 0 ==> r is None && final(self).len == 0
                && final(self).buttons == old(self).buttons,
            old(self).len == 0 && byte & 0x08 != 0 ==> r is None && final(self).len == 1
                && final(self).bytes@[0] == byte && final(self).buttons == old(self).buttons,
            old(self).len != 0 && old(self).len + 1 < old(self).capabilities.packet_len() ==> r
                is None && final(self).len == old(self).len + 1 && final(self).bytes@ == old(self).bytes@.update(old(self).len as int, byte) && final(self).buttons == old(self).buttons,
            old(self).len != 0 && old(self).len + 1 == old(self).capabilities.packet_len() ==> {
                let packet = old(self).bytes@.update(old(self).len as int, byte);
                &&& final(self).len == 0
                &&& r == decode_packet(packet, old(self).capabilities, old(self).buttons.0)
                &&& r is Some ==> final(self).buttons == r.unwrap().buttons
                &&& r is None ==> final(self).buttons == old(self).buttons
            },
    {
        if self.len == 0 {
            if byte & 0x08 == 0 {
                return None;
            }
            self.bytes.set(0, byte);
            self.len = 1;
            return None;
        }
        self.bytes.set(self.len, byte);
        self.len = self.len + 1;
        if self.len != self.capabilities.packet_len() {
            return None;
        }
        let event = self.decode();
        self.len = 0;
        event
    }

    fn decode(&mut self) -> (r: Option<PointerEvent>)
        requires
            old(self).bytes@.len() == 4,
        ensures
            final(self).bytes == old(self).bytes,
            final(self).len == old(self).len,
            final(self).capabilities == old(self).capabilities,
            r == decode_packet(old(self).bytes@, old(self).capabilities, old(self).buttons.0),
            r is Some ==> final(self).buttons == r.unwrap().buttons,
            r is None ==> final(self).buttons == old(self).buttons,
    {
        let status = self.bytes[0];
        if status & 0xc0 != 0 {
            return None;
        }
        let dx = signed_byte(self.bytes[1], status & 0x10 != 0);
        let dy_raw = signed_byte(self.bytes[2], status & 0x20 != 0);
        let dy: i16 = -dy_raw;
        let mut button_bits: u8 = status & (Buttons::LEFT | Buttons::RIGHT | Buttons::MIDDLE);
        assert(Buttons::LEFT | Buttons::RIGHT | Buttons::MIDDLE == 7u8) by (bit_vector);
        let mut wheel: i8 = 0;
        let wheel_byte = self.bytes[3];
        if self.capabilities.wheel {
            let nibble = wheel_byte & 0x0f;
            assert(wheel_byte & 0x0f < 16) by (bit_vector);
            wheel = signed_nibble(nibble);
            if self.capabilities.extra_buttons {
                let back: u8 = if wheel_byte & 0x10 != 0 {
                    Buttons::BACK
                } else {
                    0
                };
                let forward: u8 = if wheel_byte & 0x20 != 0 {
                    Buttons::FORWARD
                } else {
                    0
                };
                button_bits = button_bits | (back | forward);
            }
        }
        assert(button_bits | 0u8 == button_bits) by (bit_vector);
        let buttons = Buttons::from_bits(button_bits);
        let changed = Buttons::from_bits(buttons.bits() ^ self.buttons.bits());
        self.buttons = buttons;
        Some(PointerEvent { dx, dy, wheel, buttons, changed })
    }

    /// Part of a packet is waiting for more bytes.
    pub fn pending(&self) -> (r: bool)
        ensures
            r == (self.len != 0),
    {
        self.len != 0
    }
}

/// The mouse's capabilities and packet assembler.
pub struct MouseState {
    pub parser: PacketParser,
    pub capabilities: Capabilities,
}

impl MouseState {
    pub open spec fn wf(&self) -> bool {
        self.parser.wf()
    }

    pub fn new() -> (r: Self)
        ensures
            r.wf(),
            r.capabilities == (Capabilities { id: 0, wheel: false, extra_buttons: false }),
            r.parser.len == 0,
    {
        MouseState { parser: PacketParser::new(), capabilities: Capabilities::standard() }
    }

    pub fn configure(&mut self, capabilities: Capabilities)
        requires
            old(self).wf(),
        ensures
            final(self).wf(),
            final(self).capabilities == capabilities,
            final(self).parser.capabilities == capabilities,
            final(self).parser.len == 0,
            final(self).parser.buttons.0 == 0,
    {
        self.capabilities = capabilities;
        self.parser.configure(capabilities);
    }

    /// The mouse's status; `events_dropped` is what the input queue dropped.
    pub fn status(&self, events_dropped: u64) -> (r: Status)
        ensures
            r == (Status {
                id: self.capabilities.id,
                wheel: self.capabilities.wheel,
                extra_buttons: self.capabilities.extra_buttons,
                packet_len: self.capabilities.packet_len(),
                parser_pending: self.parser.len != 0,
                buttons: self.parser.buttons,
                events_dropped,
            }),
    {
        Status {
            id: self.capabilities.id,
            wheel: self.capabilities.wheel,
            extra_buttons: self.capabilities.extra_buttons,
            packet_len: self.capabilities.packet_len(),
            parser_pending: self.parser.pending(),
            buttons: self.parser.buttons,
            events_dropped,
        }
    }

    /// Feeds up to `POLL_LIMIT` bytes waiting at the controller's mouse port to the
    /// assembler and queues the pointer events they complete.
    pub fn poll(&mut self, controller: &mut Controller, input: &mut InputQueue)
        requires
            old(self).wf(),
        ensures
            final(self).wf(),
            final(self).capabilities == old(self).capabilities,
            final(controller).keyboard == old(controller).keyboard,
            final(controller).mouse@.len() == old(controller).mouse@.len() - (if old(controller).mouse@.len() < POLL_LIMIT {
                old(controller).mouse@.len() as int
            } else {
                POLL_LIMIT as int
            }),
    {
        let mut count: usize = 0;
        while count < POLL_LIMIT
            invariant
                self.wf(),
                self.capabilities == old(self).capabilities,
                controller.keyboard == old(controller).keyboard,
                count <= POLL_LIMIT,
                count <= old(controller).mouse@.len(),
                controller.mouse@.len() == old(controller).mouse@.len() - count,
            ensures
                self.wf(),
                self.capabilities == old(self).capabilities,
                controller.keyboard == old(controller).keyboard,
                controller.mouse@.len() == old(controller).mouse@.len() - count,
                count == POLL_LIMIT || controller.mouse@.len() == 0,
                count <= POLL_LIMIT,
            decreases POLL_LIMIT - count,
        {
            let byte = match controller.pop_mouse() {
                Some(byte) => byte,
                None => break,
            };
            match self.parser.feed(byte) {
                Some(event) => {
                    input.push(Event::Pointer(event));
                },
                None => {},
            }
            count = count + 1;
        }
    }
}

/// Checks a standard three-byte packet and a wheel packet with the extra buttons.
pub fn contract_self_check() {
    assert(0x29u8 & 0x08u8 != 0u8 && 0x08u8 & 0x08u8 != 0u8 && 0u8 & 0x08u8 == 0u8 && 0x29u8 & 0xc0u8 == 0u8
        && 0x29u8 & 0x10u8 == 0u8 && 0x29u8 & 0x20u8 != 0u8 && 0x29u8 & 7u8 == 1u8 && (1u8 | 0u8) == 1u8 && 1u8
        ^ 0u8 == 1u8 && 0x08u8 & 0xc0u8 == 0u8 && 0x08u8 & 7u8 == 0u8 && 0x31u8 & 0x0fu8 == 1u8 && 0x31u8 & 0x10u8
        != 0u8 && 0x31u8 & 0x20u8 != 0u8 && (8u8 | 16u8) == 24u8 && (0u8 | 24u8) == 24u8 && 24u8 & 8u8 == 8u8
        && 24u8 & 16u8 == 16u8 && (0u8 | (8u8 | 16u8)) & 8u8 == 8u8 && (0u8 | (8u8 | 16u8)) & 16u8 == 16u8)
        by (bit_vector);
    let mut parser = PacketParser::new();
    let a = parser.feed(0x00);
    assert(a is None);
    let first = parser.feed(0x29);
    assert(first is None);
    let second = parser.feed(1);
    assert(second is None);
    let event = parser.feed(0xff);
    assert(event is Some && event.unwrap().dx == 1 && event.unwrap().dy == 1
        && event.unwrap().buttons.0 == Buttons::LEFT && event.unwrap().changed.0
        == Buttons::LEFT);
    parser.configure(Capabilities { id: 4, wheel: true, extra_buttons: true });
    let b = parser.feed(0x08);
    let c = parser.feed(0);
    let d = parser.feed(0);
    assert(b is None && c is None && d is None);
    let event = parser.feed(0x31);
    assert(event is Some && event.unwrap().wheel == 1 && event.unwrap().buttons.0 & Buttons::BACK
        == Buttons::BACK && event.unwrap().buttons.0 & Buttons::FORWARD == Buttons::FORWARD);
}

} // verus!
