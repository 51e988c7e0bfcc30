use vstd::prelude::*;
use crate::input::{Buttons, Event, KeyCode, KeyEvent, Modifiers, PointerEvent, InputQueue, QUEUE_CAPACITY, spec_key_index};
use crate::bytes::{spec_le_u16, spec_le_u32};

verus! {

pub const MAX_FIELDS: usize = 24;
pub const MAX_KEYS: usize = 6;
pub const MAX_REPORT_BYTES: usize = 64;
pub const MAX_DESCRIPTOR_BYTES: usize = 256;
pub const MAX_USAGES: usize = 8;
/// A field read at the usage asked for, rather than at one fixed usage.
pub const NO_SELECTED_USAGE: u16 = 0xffff;

#[derive(Clone, Copy, Debug, PartialEq, Eq, Structural)]
pub enum Kind {
    Keyboard,
    Mouse,
    Other,
}

impl Kind {
    pub fn name(self) -> (r: &'static str)
        ensures
            r == (match self {
                Kind::Keyboard => "keyboard",
                Kind::Mouse => "mouse",
                Kind::Other => "other",
            }),
    {
        match self {
            Kind::Keyboard => "keyboard",
            Kind::Mouse => "mouse",
            Kind::Other => "other",
        }
    }
}

#[derive(Clone, Copy, Debug, PartialEq, Eq, Structural)]
pub enum Error {
    InvalidItem,
    UnsupportedReportId,
    TooManyFields,
    InvalidLayout,
}

/// The key a keyboard-page usage names.
pub open spec fn usage_key_code(usage: u8) -> Option<KeyCode> {
    match usage {
        0x04u8 => Some(KeyCode::A),
        0x05u8 => Some(KeyCode::B),
        0x06u8 => Some(KeyCode::C),
        0x07u8 => Some(KeyCode::D),
        0x08u8 => Some(KeyCode::E),
        0x09u8 => Some(KeyCode::F),
        0x0au8 => Some(KeyCode::G),
        0x0bu8 => Some(KeyCode::H),
        0x0cu8 => Some(KeyCode::I),
        0x0du8 => Some(KeyCode::J),
        0x0eu8 => Some(KeyCode::K),
        0x0fu8 => Some(KeyCode::L),
        0x10u8 => Some(KeyCode::M),
        0x11u8 => Some(KeyCode::N),
        0x12u8 => Some(KeyCode::O),
        0x13u8 => Some(KeyCode::P),
        0x14u8 => Some(KeyCode::Q),
        0x15u8 => Some(KeyCode::R),
        0x16u8 => Some(KeyCode::S),
        0x17u8 => Some(KeyCode::T),
        0x18u8 => Some(KeyCode::U),
        0x19u8 => Some(KeyCode::V),
        0x1au8 => Some(KeyCode::W),
        0x1bu8 => Some(KeyCode::X),
        0x1cu8 => Some(KeyCode::Y),
        0x1du8 => Some(KeyCode::Z),
        0x1eu8 => Some(KeyCode::Num1),
        0x1fu8 => Some(KeyCode::Num2),
        0x20u8 => Some(KeyCode::Num3),
        0x21u8 => Some(KeyCode::Num4),
        0x22u8 => Some(KeyCode::Num5),
        0x23u8 => Some(KeyCode::Num6),
        0x24u8 => Some(KeyCode::Num7),
        0x25u8 => Some(KeyCode::Num8),
        0x26u8 => Some(KeyCode::Num9),
        0x27u8 => Some(KeyCode::Num0),
        0x28u8 => Some(KeyCode::Enter),
        0x29u8 => Some(KeyCode::Escape),
        0x2au8 => Some(KeyCode::Backspace),
        0x2bu8 => Some(KeyCode::Tab),
        0x2cu8 => Some(KeyCode::Space),
        0x2du8 => Some(KeyCode::Minus),
        0x2eu8 => Some(KeyCode::Equals),
        0x2fu8 => Some(KeyCode::LeftBracket),
        0x30u8 => Some(KeyCode::RightBracket),
        0x31u8 => Some(KeyCode::Backslash),
        0x33u8 => Some(KeyCode::Semicolon),
        0x34u8 => Some(KeyCode::Apostrophe),
        0x35u8 => Some(KeyCode::Grave),
        0x36u8 => Some(KeyCode::Comma),
        0x37u8 => Some(KeyCode::Dot),
        0x38u8 => Some(KeyCode::Slash),
        0x39u8 => Some(KeyCode::CapsLock),
        0x3au8 => Some(KeyCode::F1),
        0x3bu8 => Some(KeyCode::F2),
        0x3cu8 => Some(KeyCode::F3),
        0x3du8 => Some(KeyCode::F4),
        0x3eu8 => Some(KeyCode::F5),
        0x3fu8 => Some(KeyCode::F6),
        0x40u8 => Some(KeyCode::F7),
        0x41u8 => Some(KeyCode::F8),
        0x42u8 => Some(KeyCode::F9),
        0x43u8 => Some(KeyCode::F10),
        0x44u8 => Some(KeyCode::F11),
        0x45u8 => Some(KeyCode::F12),
        0x47u8 => Some(KeyCode::ScrollLock),
        0x48u8 => Some(KeyCode::Pause),
        0x49u8 => Some(KeyCode::Insert),
        0x4au8 => Some(KeyCode::Home),
        0x4bu8 => Some(KeyCode::PageUp),
        0x4cu8 => Some(KeyCode::Delete),
        0x4du8 => Some(KeyCode::End),
        0x4eu8 => Some(KeyCode::PageDown),
        0x4fu8 => Some(KeyCode::ArrowRight),
        0x50u8 => Some(KeyCode::ArrowLeft),
        0x51u8 => Some(KeyCode::ArrowDown),
        0x52u8 => Some(KeyCode::ArrowUp),
        0x53u8 => Some(KeyCode::NumLock),
        0xe0u8 => Some(KeyCode::LeftCtrl),
        0xe1u8 => Some(KeyCode::LeftShift),
        0xe2u8 => Some(KeyCode::LeftAlt),
        0xe3u8 => Some(KeyCode::LeftGui),
        0xe4u8 => Some(KeyCode::RightCtrl),
        0xe5u8 => Some(KeyCode::RightShift),
        0xe6u8 => Some(KeyCode::RightAlt),
        0xe7u8 => Some(KeyCode::RightGui),
        _ => None,
    }
}

pub fn key_code(usage: u8) -> (r: Option<KeyCode>)
    ensures
        r == usage_key_code(usage),
{
    match usage {
        0x04u8 => Some(KeyCode::A),
        0x05u8 => Some(KeyCode::B),
        0x06u8 => Some(KeyCode::C),
        0x07u8 => Some(KeyCode::D),
        0x08u8 => Some(KeyCode::E),
        0x09u8 => Some(KeyCode::F),
        0x0au8 => Some(KeyCode::G),
        0x0bu8 => Some(KeyCode::H),
        0x0cu8 => Some(KeyCode::I),
        0x0du8 => Some(KeyCode::J),
        0x0eu8 => Some(KeyCode::K),
        0x0fu8 => Some(KeyCode::L),
        0x10u8 => Some(KeyCode::M),
        0x11u8 => Some(KeyCode::N),
        0x12u8 => Some(KeyCode::O),
        0x13u8 => Some(KeyCode::P),
        0x14u8 => Some(KeyCode::Q),
        0x15u8 => Some(KeyCode::R),
        0x16u8 => Some(KeyCode::S),
        0x17u8 => Some(KeyCode::T),
        0x18u8 => Some(KeyCode::U),
        0x19u8 => Some(KeyCode::V),
        0x1au8 => Some(KeyCode::W),
        0x1bu8 => Some(KeyCode::X),
        0x1cu8 => Some(KeyCode::Y),
        0x1du8 => Some(KeyCode::Z),
        0x1eu8 => Some(KeyCode::Num1),
        0x1fu8 => Some(KeyCode::Num2),
        0x20u8 => Some(KeyCode::Num3),
        0x21u8 => Some(KeyCode::Num4),
        0x22u8 => Some(KeyCode::Num5),
        0x23u8 => Some(KeyCode::Num6),
        0x24u8 => Some(KeyCode::Num7),
        0x25u8 => Some(KeyCode::Num8),
        0x26u8 => Some(KeyCode::Num9),
        0x27u8 => Some(KeyCode::Num0),
        0x28u8 => Some(KeyCode::Enter),
        0x29u8 => Some(KeyCode::Escape),
        0x2au8 => Some(KeyCode::Backspace),
        0x2bu8 => Some(KeyCode::Tab),
        0x2cu8 => Some(KeyCode::Space),
        0x2du8 => Some(KeyCode::Minus),
        0x2eu8 => Some(KeyCode::Equals),
        0x2fu8 => Some(KeyCode::LeftBracket),
        0x30u8 => Some(KeyCode::RightBracket),
        0x31u8 => Some(KeyCode::Backslash),
        0x33u8 => Some(KeyCode::Semicolon),
        0x34u8 => Some(KeyCode::Apostrophe),
        0x35u8 => Some(KeyCode::Grave),
        0x36u8 => Some(KeyCode::Comma),
        0x37u8 => Some(KeyCode::Dot),
        0x38u8 => Some(KeyCode::Slash),
        0x39u8 => Some(KeyCode::CapsLock),
        0x3au8 => Some(KeyCode::F1),
        0x3bu8 => Some(KeyCode::F2),
        0x3cu8 => Some(KeyCode::F3),
        0x3du8 => Some(KeyCode::F4),
        0x3eu8 => Some(KeyCode::F5),
        0x3fu8 => Some(KeyCode::F6),
        0x40u8 => Some(KeyCode::F7),
        0x41u8 => Some(KeyCode::F8),
        0x42u8 => Some(KeyCode::F9),
        0x43u8 => Some(KeyCode::F10),
        0x44u8 => Some(KeyCode::F11),
        0x45u8 => Some(KeyCode::F12),
        0x47u8 => Some(KeyCode::ScrollLock),
        0x48u8 => Some(KeyCode::Pause),
        0x49u8 => Some(KeyCode::Insert),
        0x4au8 => Some(KeyCode::Home),
        0x4bu8 => Some(KeyCode::PageUp),
        0x4cu8 => Some(KeyCode::Delete),
        0x4du8 => Some(KeyCode::End),
        0x4eu8 => Some(KeyCode::PageDown),
        0x4fu8 => Some(KeyCode::ArrowRight),
        0x50u8 => Some(KeyCode::ArrowLeft),
        0x51u8 => Some(KeyCode::ArrowDown),
        0x52u8 => Some(KeyCode::ArrowUp),
        0x53u8 => Some(KeyCode::NumLock),
        0xe0u8 => Some(KeyCode::LeftCtrl),
        0xe1u8 => Some(KeyCode::LeftShift),
        0xe2u8 => Some(KeyCode::LeftAlt),
        0xe3u8 => Some(KeyCode::LeftGui),
        0xe4u8 => Some(KeyCode::RightCtrl),
        0xe5u8 => Some(KeyCode::RightShift),
        0xe6u8 => Some(KeyCode::RightAlt),
        0xe7u8 => Some(KeyCode::RightGui),
        _ => None,
    }
}

/// The character a keyboard-page usage types without shift.
pub open spec fn usage_char(usage: u8) -> Option<char> {
    match usage {
        0x04u8 => Some('a'),
        0x05u8 => Some('b'),
        0x06u8 => Some('c'),
        0x07u8 => Some('d'),
        0x08u8 => Some('e'),
        0x09u8 => Some('f'),
        0x0au8 => Some('g'),
        0x0bu8 => Some('h'),
        0x0cu8 => Some('i'),
        0x0du8 => Some('j'),
        0x0eu8 => Some('k'),
        0x0fu8 => Some('l'),
        0x10u8 => Some('m'),
        0x11u8 => Some('n'),
        0x12u8 => Some('o'),
        0x13u8 => Some('p'),
        0x14u8 => Some('q'),
        0x15u8 => Some('r'),
        0x16u8 => Some('s'),
        0x17u8 => Some('t'),
        0x18u8 => Some('u'),
        0x19u8 => Some('v'),
        0x1au8 => Some('w'),
        0x1bu8 => Some('x'),
        0x1cu8 => Some('y'),
        0x1du8 => Some('z'),
        0x1eu8 => Some('1'),
        0x1fu8 => Some('2'),
        0x20u8 => Some('3'),
        0x21u8 => Some('4'),
        0x22u8 => Some('5'),
        0x23u8 => Some('6'),
        0x24u8 => Some('7'),
        0x25u8 => Some('8'),
        0x26u8 => Some('9'),
        0x27u8 => Some('0'),
        0x2cu8 => Some(' '),
        0x2du8 => Some('-'),
        0x2eu8 => Some('='),
        0x2fu8 => Some('['),
        0x30u8 => Some(']'),
        0x31u8 => Some('\\'),
        0x33u8 => Some(';'),
        0x34u8 => Some('\''),
        0x35u8 => Some('`'),
        0x36u8 => Some(','),
        0x37u8 => Some('.'),
        0x38u8 => Some('/'),
        _ => None,
    }
}

/// The character typed with shift held.
pub open spec fn shifted_char(c: char) -> char {
    match c {
        '1' => '!',
        '2' => '@',
        '3' => '#',
        '4' => '$',
        '5' => '%',
        '6' => '^',
        '7' => '&',
        '8' => '*',
        '9' => '(',
        '0' => ')',
        '-' => '_',
        '=' => '+',
        '[' => '{',
        ']' => '}',
        '\\' => '|',
        ';' => ':',
        '\'' => '"',
        '`' => '~',
        ',' => '<',
        '.' => '>',
        '/' => '?',
        'a' => 'A',
        'b' => 'B',
        'c' => 'C',
        'd' => 'D',
        'e' => 'E',
        'f' => 'F',
        'g' => 'G',
        'h' => 'H',
        'i' => 'I',
        'j' => 'J',
        'k' => 'K',
        'l' => 'L',
        'm' => 'M',
        'n' => 'N',
        'o' => 'O',
        'p' => 'P',
        'q' => 'Q',
        'r' => 'R',
        's' => 'S',
        't' => 'T',
        'u' => 'U',
        'v' => 'V',
        'w' => 'W',
        'x' => 'X',
        'y' => 'Y',
        'z' => 'Z',
        other => other,
    }
}

/// The text a key types under `modifiers`.
pub open spec fn usage_text(usage: u8, modifiers: u8) -> Option<char> {
    match usage_char(usage) {
        None => None,
        Some(c) => Some(if modifiers & Modifiers::SHIFT != 0 {
            shifted_char(c)
        } else {
            c
        }),
    }
}

fn base_char(usage: u8) -> (r: Option<char>)
    ensures
        r == usage_char(usage),
{
    match usage {
        0x04u8 => Some('a'),
        0x05u8 => Some('b'),
        0x06u8 => Some('c'),
        0x07u8 => Some('d'),
        0x08u8 => Some('e'),
        0x09u8 => Some('f'),
        0x0au8 => Some('g'),
        0x0bu8 => Some('h'),
        0x0cu8 => Some('i'),
        0x0du8 => Some('j'),
        0x0eu8 => Some('k'),
        0x0fu8 => Some('l'),
        0x10u8 => Some('m'),
        0x11u8 => Some('n'),
        0x12u8 => Some('o'),
        0x13u8 => Some('p'),
        0x14u8 => Some('q'),
        0x15u8 => Some('r'),
        0x16u8 => Some('s'),
        0x17u8 => Some('t'),
        0x18u8 => Some('u'),
        0x19u8 => Some('v'),
        0x1au8 => Some('w'),
        0x1bu8 => Some('x'),
        0x1cu8 => Some('y'),
        0x1du8 => Some('z'),
        0x1eu8 => Some('1'),
        0x1fu8 => Some('2'),
        0x20u8 => Some('3'),
        0x21u8 => Some('4'),
        0x22u8 => Some('5'),
        0x23u8 => Some('6'),
        0x24u8 => Some('7'),
        0x25u8 => Some('8'),
        0x26u8 => Some('9'),
        0x27u8 => Some('0'),
        0x2cu8 => Some(' '),
        0x2du8 => Some('-'),
        0x2eu8 => Some('='),
        0x2fu8 => Some('['),
        0x30u8 => Some(']'),
        0x31u8 => Some('\\'),
        0x33u8 => Some(';'),
        0x34u8 => Some('\''),
        0x35u8 => Some('`'),
        0x36u8 => Some(','),
        0x37u8 => Some('.'),
        0x38u8 => Some('/'),
        _ => None,
    }
}

fn shift_char(c: char) -> (r: char)
    ensures
        r == shifted_char(c),
{
    match c {
        '1' => '!',
        '2' => '@',
        '3' => '#',
        '4' => '$',
        '5' => '%',
        '6' => '^',
        '7' => '&',
        '8' => '*',
        '9' => '(',
        '0' => ')',
        '-' => '_',
        '=' => '+',
        '[' => '{',
        ']' => '}',
        '\\' => '|',
        ';' => ':',
        '\'' => '"',
        '`' => '~',
        ',' => '<',
        '.' => '>',
        '/' => '?',
        'a' => 'A',
        'b' => 'B',
        'c' => 'C',
        'd' => 'D',
        'e' => 'E',
        'f' => 'F',
        'g' => 'G',
        'h' => 'H',
        'i' => 'I',
        'j' => 'J',
        'k' => 'K',
        'l' => 'L',
        'm' => 'M',
        'n' => 'N',
        'o' => 'O',
        'p' => 'P',
        'q' => 'Q',
        'r' => 'R',
        's' => 'S',
        't' => 'T',
        'u' => 'U',
        'v' => 'V',
        'w' => 'W',
        'x' => 'X',
        'y' => 'Y',
        'z' => 'Z',
        other => other,
    }
}

pub fn key_text(usage: u8, modifiers: u8) -> (r: Option<char>)
    ensures
        r == usage_text(usage, modifiers),
{
    match base_char(usage) {
        None => None,
        Some(c) => Some(if modifiers & Modifiers::SHIFT != 0 {
            shift_char(c)
        } else {
            c
        }),
    }
}

/// The modifier bits of a boot-protocol modifier byte: either shift, control, alt or
/// GUI key sets the one modifier.
pub open spec fn modifier_bits(value: u8) -> u8 {
    (if value & 0x03 != 0 { Modifiers::SHIFT } else { 0u8 }) | (if value & 0x0c != 0 {
        Modifiers::CTRL
    } else {
        0u8
    }) | (if value & 0x30 != 0 { Modifiers::ALT } else { 0u8 }) | (if value & 0xc0 != 0 {
        Modifiers::GUI
    } else {
        0u8
    })
}

pub fn hid_modifiers(value: u8) -> (r: u8)
    ensures
        r == modifier_bits(value),
{
    let shift: u8 = if value & 0x03 != 0 { Modifiers::SHIFT } else { 0 };
    let ctrl: u8 = if value & 0x0c != 0 { Modifiers::CTRL } else { 0 };
    let alt: u8 = if value & 0x30 != 0 { Modifiers::ALT } else { 0 };
    let gui: u8 = if value & 0xc0 != 0 { Modifiers::GUI } else { 0 };
    shift | ctrl | alt | gui
}

/// `value` as a two's-complement number of `bits` bits, sign-extended; values of no
/// bits or of 32 bits and more are taken as they are.
pub open spec fn sign_extend(value: u32, bits: u32) -> i32 {
    if bits == 0 || bits >= 32 || value & (1u32 << (bits - 1) as u32) == 0 {
        value as i32
    } else {
        (value | (0xffff_ffffu32 << bits)) as i32
    }
}

pub fn signed_bits(value: u32, bits: u32) -> (r: i32)
    ensures
        r == sign_extend(value, bits),
{
    if bits == 0 || bits >= 32 || value & (1u32 << (bits - 1)) == 0 {
        return value as i32;
    }
    (value | (0xffff_ffffu32 << bits)) as i32
}

/// An item's value of `size` bytes sign-extended; four bytes or more are the value as it
/// is.
pub fn signed_value(value: u32, size: u32) -> (r: i32)
    ensures
        size < 4 ==> r == sign_extend(value, (size * 8) as u32),
        size >= 4 ==> r == value as i32,
{
    if size >= 4 {
        return value as i32;
    }
    signed_bits(value, size * 8)
}

/// The little-endian value of an item's data bytes (none, one, two or four).
pub open spec fn item_data(d: Seq<u8>, at: int, size: int) -> u32 {
    if size == 0 {
        0
    } else if size == 1 {
        d[at] as u32
    } else if size == 2 {
        spec_le_u16(d, at) as u32
    } else {
        spec_le_u32(d, at) as u32
    }
}

pub fn item_value(d: &[u8], at: usize, size: usize) -> (r: u32)
    requires
        size == 0 || size == 1 || size == 2 || size == 4,
        at + size <= d@.len(),
    ensures
        r == item_data(d@, at as int, size as int),
{
    if size == 0 {
        0
    } else if size == 1 {
        d[at] as u32
    } else if size == 2 {
        crate::bytes::le_u16(d, at) as u32
    } else {
        crate::bytes::le_u32(d, at)
    }
}

// ---------------------------------------------------------------------------
// Report descriptors

/// One main input item: a run of `count` values of `bit_size` bits from `bit_offset`,
/// for the usages `usages` (when listed) or `usage_min..=usage_max` of `page`.
pub struct Field {
    pub page: u16,
    pub usage_min: u16,
    pub usage_max: u16,
    pub usages: Vec<u16>,
    pub logical_min: i32,
    pub bit_offset: u16,
    pub bit_size: u8,
    pub count: u8,
}

pub struct FieldView {
    pub page: u16,
    pub usage_min: u16,
    pub usage_max: u16,
    pub usages: Seq<u16>,
    pub logical_min: i32,
    pub bit_offset: u16,
    pub bit_size: u8,
    pub count: u8,
}

impl Field {
    pub open spec fn view(&self) -> FieldView {
        FieldView {
            page: self.page,
            usage_min: self.usage_min,
            usage_max: self.usage_max,
            usages: self.usages@,
            logical_min: self.logical_min,
            bit_offset: self.bit_offset,
            bit_size: self.bit_size,
            count: self.count,
        }
    }
}

pub open spec fn field_views(fields: Seq<Field>) -> Seq<FieldView> {
    fields.map_values(|f: Field| f@)
}

/// The field carries `usage` of `page`.
pub open spec fn field_has(f: FieldView, page: u16, usage: u16) -> bool {
    f.page == page && if f.usages.len() != 0 {
        f.usages.contains(usage)
    } else {
        f.usage_min <= usage <= f.usage_max
    }
}

/// Where `v` first occurs in `s`.
pub open spec fn first_index(s: Seq<u16>, v: u16) -> int
    decreases s.len(),
{
    if s.len() == 0 || s[0] == v {
        0
    } else {
        1 + first_index(s.drop_first(), v)
    }
}

/// The bit at which the field holds `usage`, or the field's one `selected` usage when
/// there is one; `None` when it holds no such usage or the position overflows.
pub open spec fn field_bit(f: FieldView, selected: u16, usage: u16) -> Option<u16> {
    let u = if selected == NO_SELECTED_USAGE {
        usage
    } else {
        selected
    };
    if !field_has(f, f.page, u) {
        None
    } else {
        let index: int = if f.usages.len() != 0 {
            first_index(f.usages, u)
        } else {
            u - f.usage_min
        };
        let span = index * f.bit_size;
        if span > u16::MAX || f.bit_offset + span > u16::MAX {
            None
        } else {
            Some((f.bit_offset + span) as u16)
        }
    }
}

fn field_contains(f: &Field, page: u16, usage: u16) -> (r: bool)
    ensures
        r == field_has(f@, page, usage),
{
    if f.page != page {
        return false;
    }
    if f.usages.len() != 0 {
        let mut k: usize = 0;
        while k < f.usages.len()
            invariant
                k <= f.usages@.len(),
                f.page == page,
                f.usages@.len() != 0,
                forall|j: int| 0 <= j < k ==> f.usages@[j] != usage,
            decreases f.usages@.len() - k,
        {
            if f.usages[k] == usage {
                assert(f.usages@[k as int] == usage);
                return true;
            }
            k = k + 1;
        }
        false
    } else {
        f.usage_min <= usage && usage <= f.usage_max
    }
}

fn position_of(s: &Vec<u16>, v: u16) -> (r: usize)
    requires
        s@.contains(v),
    ensures
        r == first_index(s@, v),
        r < s@.len(),
{
    let mut k: usize = 0;
    assert(s@.skip(0) =~= s@);
    while k < s.len()
        invariant
            k <= s@.len(),
            s@.contains(v),
            forall|j: int| 0 <= j < k ==> s@[j] != v,
            first_index(s@, v) == k + first_index(s@.skip(k as int), v),
        decreases s@.len() - k,
    {
        assert(s@.skip(k as int)[0] == s@[k as int]);
        if s[k] == v {
            return k;
        }
        assert(s@.skip(k as int).drop_first() =~= s@.skip(k + 1));
        k = k + 1;
    }
    assert(false);
    0
}

pub fn field_offset(f: &Field, selected: u16, usage: u16) -> (r: Option<u16>)
    requires
        f.usages@.len() <= MAX_USAGES,
    ensures
        r == field_bit(f@, selected, usage),
{
    let u = if selected == NO_SELECTED_USAGE {
        usage
    } else {
        selected
    };
    if !field_contains(f, f.page, u) {
        return None;
    }
    let index: u16 = if f.usages.len() != 0 {
        let p = position_of(&f.usages, u);
        p as u16
    } else {
        u - f.usage_min
    };
    let span = match index.checked_mul(f.bit_size as u16) {
        Some(v) => v,
        None => return None,
    };
    f.bit_offset.checked_add(span)
}

/// Bit `position` of a report, counting from the low bit of the first byte; bits past
/// the end are clear.
pub open spec fn report_bit(report: Seq<u8>, position: int) -> bool {
    position / 8 < report.len() && report[position / 8] & (1u8 << (position % 8) as u8) != 0
}

/// The low `n` bits of the value that starts at bit `offset`.
pub open spec fn bits_value(report: Seq<u8>, offset: int, n: nat) -> u32
    decreases n,
{
    if n == 0 {
        0
    } else {
        let below = bits_value(report, offset, (n - 1) as nat);
        if report_bit(report, offset + n - 1) {
            below | (1u32 << (n - 1) as u32)
        } else {
            below
        }
    }
}

/// At most 32 bits from bit `bit_offset` of a report.
pub open spec fn report_bits(report: Seq<u8>, bit_offset: u16, bit_count: int) -> u32 {
    bits_value(report, bit_offset as int, (if bit_count < 32 { bit_count } else { 32 }) as nat)
}

pub fn read_bits(report: &[u8], bit_offset: u16, bit_count: usize) -> (r: u32)
    ensures
        r == report_bits(report@, bit_offset, bit_count as int),
{
    let limit: u32 = if bit_count < 32 {
        bit_count as u32
    } else {
        32
    };
    let mut value: u32 = 0;
    let mut bit: u32 = 0;
    while bit < limit
        invariant
            bit <= limit <= 32,
            limit == (if bit_count < 32 { bit_count as int } else { 32 }),
            value == bits_value(report@, bit_offset as int, bit as nat),
        decreases limit - bit,
    {
        let position = bit_offset as usize + bit as usize;
        let set = position / 8 < report.len() && report[position / 8] & (1u8 << ((position % 8) as u8)) != 0;
        if set {
            value = value | (1u32 << bit);
        }
        bit = bit + 1;
    }
    value
}

/// The value of one usage of a field, zero when the field does not hold it.
pub open spec fn field_value(report: Seq<u8>, f: FieldView, selected: u16, usage: u16) -> u32 {
    match field_bit(f, selected, usage) {
        None => 0,
        Some(offset) => report_bits(report, offset, f.bit_size as int),
    }
}

pub fn read_field(report: &[u8], f: &Field, selected: u16, usage: u16) -> (r: u32)
    requires
        f.usages@.len() <= MAX_USAGES,
    ensures
        r == field_value(report@, f@, selected, usage),
{
    match field_offset(f, selected, usage) {
        None => 0,
        Some(offset) => read_bits(report, offset, f.bit_size as usize),
    }
}

/// A field's first value, sign-extended when its logical minimum is negative.
pub open spec fn signed_field_value(report: Seq<u8>, f: FieldView, selected: u16) -> i32 {
    let value = field_value(report, f, selected, f.usage_min);
    if f.logical_min < 0 {
        sign_extend(value, f.bit_size as u32)
    } else {
        value as i32
    }
}

pub fn read_signed_field(report: &[u8], f: &Field, selected: u16) -> (r: i32)
    requires
        f.usages@.len() <= MAX_USAGES,
    ensures
        r == signed_field_value(report@, f@, selected),
{
    let value = read_field(report, f, selected, f.usage_min);
    if f.logical_min < 0 {
        signed_bits(value, f.bit_size as u32)
    } else {
        value as i32
    }
}

/// Which fields a keyboard or mouse report is read from.
#[derive(Clone, Copy, Debug, PartialEq, Eq, Structural)]
pub struct Roles {
    pub modifiers: Option<usize>,
    pub keys: Option<usize>,
    pub buttons: Option<usize>,
    pub x: Option<usize>,
    pub y: Option<usize>,
    pub wheel: Option<usize>,
}

pub const USAGE_X: u16 = 0x30;
pub const USAGE_Y: u16 = 0x31;
pub const USAGE_WHEEL: u16 = 0x38;

/// The roles after field `index`: a keyboard-page bitmap of eight or more bits holds
/// the modifiers, a keyboard-page array of three or more bytes the keys, a button-page
/// bitmap the buttons, and a generic-desktop field the axes it carries.
pub open spec fn classify(roles: Roles, index: usize, f: FieldView) -> Roles {
    if f.page == 0x07 && f.bit_size == 1 && f.count >= 8 {
        Roles { modifiers: Some(index), ..roles }
    } else if f.page == 0x07 && f.bit_size >= 8 && f.count >= 3 {
        Roles { keys: Some(index), ..roles }
    } else if f.page == 0x09 && f.bit_size == 1 {
        Roles { buttons: Some(index), ..roles }
    } else if f.page == 0x01 {
        Roles {
            x: if field_has(f, f.page, USAGE_X) { Some(index) } else { roles.x },
            y: if field_has(f, f.page, USAGE_Y) { Some(index) } else { roles.y },
            wheel: if field_has(f, f.page, USAGE_WHEEL) { Some(index) } else { roles.wheel },
            ..roles
        }
    } else {
        roles
    }
}

pub open spec fn no_roles() -> Roles {
    Roles { modifiers: None, keys: None, buttons: None, x: None, y: None, wheel: None }
}

/// The roles after classifying every field in order: a later field takes a role over.
pub open spec fn roles_of(fields: Seq<FieldView>) -> Roles
    decreases fields.len(),
{
    if fields.len() == 0 {
        no_roles()
    } else {
        classify(roles_of(fields.drop_last()), (fields.len() - 1) as usize, fields.last())
    }
}

fn classify_field(roles: Roles, index: usize, f: &Field) -> (r: Roles)
    ensures
        r == classify(roles, index, f@),
{
    if f.page == 0x07 && f.bit_size == 1 && f.count >= 8 {
        Roles { modifiers: Some(index), ..roles }
    } else if f.page == 0x07 && f.bit_size >= 8 && f.count >= 3 {
        Roles { keys: Some(index), ..roles }
    } else if f.page == 0x09 && f.bit_size == 1 {
        Roles { buttons: Some(index), ..roles }
    } else if f.page == 0x01 {
        let x = if field_contains(f, f.page, USAGE_X) { Some(index) } else { roles.x };
        let y = if field_contains(f, f.page, USAGE_Y) { Some(index) } else { roles.y };
        let wheel = if field_contains(f, f.page, USAGE_WHEEL) { Some(index) } else { roles.wheel };
        Roles { x, y, wheel, ..roles }
    } else {
        roles
    }
}

/// The descriptor parser's state: where it is, the global and local items in force,
/// and the fields found so far.
pub struct HidParse {
    pub offset: int,
    pub bit_offset: u16,
    pub usage_page: u16,
    pub report_size: u8,
    pub report_count: u8,
    pub logical_min: i32,
    pub usage_min: u16,
    pub usage_max: u16,
    pub usages: Seq<u16>,
    pub usage_set: bool,
    pub fields: Seq<FieldView>,
}

pub open spec fn item_size(prefix: u8) -> int {
    if prefix & 3 == 0 {
        0
    } else if prefix & 3 == 1 {
        1
    } else if prefix & 3 == 2 {
        2
    } else {
        4
    }
}

/// The item at the parser's offset applied to its state: long items are skipped, global
/// items set the page, logical minimum, report size and count (report ids other than
/// zero are refused), local items set usages, and an input item adds a field and moves
/// the bit offset past it.
pub open spec fn hid_item(d: Seq<u8>, st: HidParse) -> Result<HidParse, Error> {
    let prefix = d[st.offset];
    let at = st.offset + 1;
    if prefix == 0xfe {
        if at + 2 > d.len() {
            Err(Error::InvalidItem)
        } else if at + 2 + d[at] > d.len() {
            Err(Error::InvalidItem)
        } else {
            Ok(HidParse { offset: at + 2 + d[at], ..st })
        }
    } else {
        let size = item_size(prefix);
        if at + size > d.len() {
            Err(Error::InvalidItem)
        } else {
            let value = item_data(d, at, size);
            let s = HidParse { offset: at + size, ..st };
            let item_type = (prefix >> 2u8) & 3;
            let tag = prefix >> 4u8;
            if item_type == 1 && tag == 0 {
                Ok(HidParse { usage_page: value as u16, ..s })
            } else if item_type == 1 && tag == 1 {
                Ok(HidParse { logical_min: sign_extend(value, (size * 8) as u32), ..s })
            } else if item_type == 1 && tag == 7 {
                Ok(HidParse { report_size: value as u8, ..s })
            } else if item_type == 1 && tag == 8 {
                if value != 0 {
                    Err(Error::UnsupportedReportId)
                } else {
                    Ok(s)
                }
            } else if item_type == 1 && tag == 9 {
                Ok(HidParse { report_count: value as u8, ..s })
            } else if item_type == 2 && tag == 1 {
                Ok(
                    HidParse {
                        usage_min: value as u16,
                        usage_max: value as u16,
                        usages: Seq::empty(),
                        usage_set: true,
                        ..s
                    },
                )
            } else if item_type == 2 && tag == 2 {
                Ok(HidParse { usage_max: value as u16, usage_set: true, ..s })
            } else if item_type == 2 && tag == 0 {
                if s.usages.len() >= MAX_USAGES {
                    Err(Error::InvalidLayout)
                } else {
                    Ok(
                        HidParse {
                            usages: s.usages.push(value as u16),
                            usage_min: if s.usages.len() == 0 { value as u16 } else { s.usage_min },
                            usage_max: value as u16,
                            usage_set: true,
                            ..s
                        },
                    )
                }
            } else if item_type == 0 && tag == 8 {
                if s.report_size == 0 || s.report_size > 32 || s.report_count == 0 || s.report_count > 32 {
                    Err(Error::InvalidLayout)
                } else if s.fields.len() >= MAX_FIELDS {
                    Err(Error::TooManyFields)
                } else {
                    let field = FieldView {
                        page: s.usage_page,
                        usage_min: if s.usage_set { s.usage_min } else { 0 },
                        usage_max: if !s.usage_set {
                            0
                        } else if s.usage_max >= s.usage_min {
                            s.usage_max
                        } else {
                            s.usage_min
                        },
                        usages: s.usages,
                        logical_min: s.logical_min,
                        bit_offset: s.bit_offset,
                        bit_size: s.report_size,
                        count: s.report_count,
                    };
                    let bits = s.report_size * s.report_count;
                    if s.bit_offset + bits > u16::MAX {
                        Err(Error::InvalidLayout)
                    } else {
                        Ok(
                            HidParse {
                                fields: s.fields.push(field),
                                bit_offset: (s.bit_offset + bits) as u16,
                                usage_set: false,
                                usages: Seq::empty(),
                                ..s
                            },
                        )
                    }
                }
            } else {
                Ok(s)
            }
        }
    }
}

/// The parse of the items from the state's offset to the end.
pub open spec fn hid_walk(d: Seq<u8>, st: HidParse) -> Result<HidParse, Error>
    decreases d.len() - st.offset,
{
    if st.offset >= d.len() || st.offset < 0 {
        Ok(st)
    } else {
        match hid_item(d, st) {
            Err(e) => Err(e),
            Ok(next) => if next.offset <= st.offset {
                Ok(next)
            } else {
                hid_walk(d, next)
            },
        }
    }
}

pub open spec fn hid_start() -> HidParse {
    HidParse {
        offset: 0,
        bit_offset: 0,
        usage_page: 0,
        report_size: 0,
        report_count: 0,
        logical_min: 0,
        usage_min: 0,
        usage_max: 0,
        usages: Seq::empty(),
        usage_set: false,
        fields: Seq::empty(),
    }
}

/// A keyboard has modifiers and keys; a mouse, failing that, buttons and both axes.
pub open spec fn kind_of(roles: Roles) -> Kind {
    if roles.modifiers is Some && roles.keys is Some {
        Kind::Keyboard
    } else if roles.buttons is Some && roles.x is Some && roles.y is Some {
        Kind::Mouse
    } else {
        Kind::Other
    }
}

/// How a device's reports are laid out.
pub struct Layout {
    pub kind: Kind,
    pub report_bytes: usize,
    pub fields: Vec<Field>,
    pub roles: Roles,
}

impl Layout {
    pub open spec fn wf(&self) -> bool {
        &&& self.fields@.len() <= MAX_FIELDS
        &&& forall|i: int| 0 <= i < self.fields@.len() ==> (#[trigger] self.fields@[i]).usages@.len() <= MAX_USAGES
        &&& self.roles == roles_of(field_views(self.fields@))
        &&& self.kind == kind_of(self.roles)
        &&& roles_in(self.roles, self.fields@.len() as int)
    }
}

/// Every role names a field.
pub open spec fn roles_in(roles: Roles, n: int) -> bool {
    &&& roles.modifiers matches Some(i) ==> i < n
    &&& roles.keys matches Some(i) ==> i < n
    &&& roles.buttons matches Some(i) ==> i < n
    &&& roles.x matches Some(i) ==> i < n
    &&& roles.y matches Some(i) ==> i < n
    &&& roles.wheel matches Some(i) ==> i < n
}

/// The descriptor parser.
pub struct HidParser {
    pub offset: usize,
    pub bit_offset: u16,
    pub usage_page: u16,
    pub report_size: u8,
    pub report_count: u8,
    pub logical_min: i32,
    pub usage_min: u16,
    pub usage_max: u16,
    pub usages: Vec<u16>,
    pub usage_set: bool,
    pub fields: Vec<Field>,
    pub roles: Roles,
}

impl HidParser {
    pub open spec fn view(&self) -> HidParse {
        HidParse {
            offset: self.offset as int,
            bit_offset: self.bit_offset,
            usage_page: self.usage_page,
            report_size: self.report_size,
            report_count: self.report_count,
            logical_min: self.logical_min,
            usage_min: self.usage_min,
            usage_max: self.usage_max,
            usages: self.usages@,
            usage_set: self.usage_set,
            fields: field_views(self.fields@),
        }
    }

    pub open spec fn wf(&self) -> bool {
        &&& self.fields@.len() <= MAX_FIELDS
        &&& self.usages@.len() <= MAX_USAGES
        &&& forall|i: int| 0 <= i < self.fields@.len() ==> (#[trigger] self.fields@[i]).usages@.len() <= MAX_USAGES
        &&& self.roles == roles_of(field_views(self.fields@))
        &&& roles_in(self.roles, self.fields@.len() as int)
    }

    /// Applies the item at the parser's offset.
    pub fn step(&mut self, d: &[u8]) -> (r: Result<(), Error>)
        requires
            old(self).wf(),
            old(self).offset < d@.len(),
        ensures
            final(self).wf(),
            match hid_item(d@, old(self)@) {
                Err(e) => r == Err::<(), Error>(e),
                Ok(next) => r is Ok && final(self)@ == next,
            },
    {
        let prefix = d[self.offset];
        let at = self.offset + 1;
        if prefix == 0xfe {
            if at > d.len() || d.len() - at < 2 {
                return Err(Error::InvalidItem);
            }
            let length = d[at] as usize;
            if length > d.len() - at - 2 {
                return Err(Error::InvalidItem);
            }
            self.offset = at + 2 + length;
            return Ok(());
        }
        let size: usize = if prefix & 3 == 0 {
            0
        } else if prefix & 3 == 1 {
            1
        } else if prefix & 3 == 2 {
            2
        } else {
            4
        };
        if at > d.len() || size > d.len() - at {
            return Err(Error::InvalidItem);
        }
        let value = item_value(d, at, size);
        self.offset = at + size;
        let item_type = (prefix >> 2u8) & 3;
        let tag = prefix >> 4u8;
        if item_type == 1 && tag == 0 {
            self.usage_page = value as u16;
        } else if item_type == 1 && tag == 1 {
            self.logical_min = signed_value(value, size as u32);
        } else if item_type == 1 && tag == 7 {
            self.report_size = value as u8;
        } else if item_type == 1 && tag == 8 {
            if value != 0 {
                return Err(Error::UnsupportedReportId);
            }
        } else if item_type == 1 && tag == 9 {
            self.report_count = value as u8;
        } else if item_type == 2 && tag == 1 {
            self.usage_min = value as u16;
            self.usage_max = value as u16;
            self.usages = Vec::new();
            self.usage_set = true;
        } else if item_type == 2 && tag == 2 {
            self.usage_max = value as u16;
            self.usage_set = true;
        } else if item_type == 2 && tag == 0 {
            if self.usages.len() >= MAX_USAGES {
                return Err(Error::InvalidLayout);
            }
            if self.usages.len() == 0 {
                self.usage_min = value as u16;
            }
            self.usages.push(value as u16);
            self.usage_max = value as u16;
            self.usage_set = true;
        } else if item_type == 0 && tag == 8 {
            if self.report_size == 0 || self.report_size > 32 || self.report_count == 0 || self.report_count > 32 {
                return Err(Error::InvalidLayout);
            }
            if self.fields.len() >= MAX_FIELDS {
                return Err(Error::TooManyFields);
            }
            proof {
                assert(self.report_size * self.report_count <= 1024) by (nonlinear_arith)
                    requires
                        self.report_size <= 32,
                        self.report_count <= 32,
                ;
            }
            let bits: u16 = self.report_size as u16 * self.report_count as u16;
            if self.bit_offset > 0xffff - bits {
                return Err(Error::InvalidLayout);
            }
            let mut usages: Vec<u16> = Vec::new();
            std::mem::swap(&mut usages, &mut self.usages);
            let field = Field {
                page: self.usage_page,
                usage_min: if self.usage_set { self.usage_min } else { 0 },
                usage_max: if !self.usage_set {
                    0
                } else if self.usage_max >= self.usage_min {
                    self.usage_max
                } else {
                    self.usage_min
                },
                usages,
                logical_min: self.logical_min,
                bit_offset: self.bit_offset,
                bit_size: self.report_size,
                count: self.report_count,
            };
            let index = self.fields.len();
            let roles = classify_field(self.roles, index, &field);
            let ghost before = self.fields@;
            self.fields.push(field);
            proof {
                assert(field_views(self.fields@).drop_last() =~= field_views(before));
                assert(field_views(self.fields@) =~= field_views(before).push(field@));
            }
            self.roles = roles;
            self.bit_offset = self.bit_offset + bits;
            self.usage_set = false;
        }
        Ok(())
    }
}

/// The layout a report descriptor describes.
pub fn parse_layout(d: &[u8]) -> (r: Result<Layout, Error>)
    ensures
        match hid_walk(d@, hid_start()) {
            Err(e) => r matches Err(f) && f == e,
            Ok(st) => r matches Ok(layout) && {
                &&& layout.wf()
                &&& field_views(layout.fields@) == st.fields
                &&& layout.report_bytes == (st.bit_offset + 7) / 8
            },
        },
{
    let mut parser = HidParser {
        offset: 0,
        bit_offset: 0,
        usage_page: 0,
        report_size: 0,
        report_count: 0,
        logical_min: 0,
        usage_min: 0,
        usage_max: 0,
        usages: Vec::new(),
        usage_set: false,
        fields: Vec::new(),
        roles: Roles { modifiers: None, keys: None, buttons: None, x: None, y: None, wheel: None },
    };
    assert(field_views(parser.fields@) =~= Seq::<FieldView>::empty());
    assert(parser@ == hid_start()) by {
        assert(parser.usages@ =~= Seq::<u16>::empty());
    }
    while parser.offset < d.len()
        invariant
            parser.wf(),
            parser.offset <= d@.len(),
            hid_walk(d@, hid_start()) == hid_walk(d@, parser@),
        decreases d@.len() - parser.offset,
    {
        let ghost before = parser@;
        match parser.step(d) {
            Ok(()) => {},
            Err(e) => return Err(e),
        }
        assert(parser.offset > before.offset);
    }
    let kind = if parser.roles.modifiers.is_some() && parser.roles.keys.is_some() {
        Kind::Keyboard
    } else if parser.roles.buttons.is_some() && parser.roles.x.is_some() && parser.roles.y.is_some() {
        Kind::Mouse
    } else {
        Kind::Other
    };
    let report_bytes = (parser.bit_offset as usize + 7) / 8;
    Ok(Layout { kind, report_bytes, fields: parser.fields, roles: parser.roles })
}

// ---------------------------------------------------------------------------
// Devices

/// A HID device in report protocol: its layout and what its last report held.
pub struct Device {
    pub layout: Layout,
    pub previous_keys: Vec<u8>,
    pub previous_buttons: u8,
}

/// The device a report descriptor describes, when the descriptor is 1 to 256 bytes,
/// parses, and its reports are 1 to 64 bytes long.
pub open spec fn descriptor_layout(d: Seq<u8>) -> Result<HidParse, Error> {
    if d.len() == 0 || d.len() > MAX_DESCRIPTOR_BYTES {
        Err(Error::InvalidItem)
    } else {
        match hid_walk(d, hid_start()) {
            Err(e) => Err(e),
            Ok(st) => if (st.bit_offset + 7) / 8 == 0 || (st.bit_offset + 7) / 8 > MAX_REPORT_BYTES {
                Err(Error::InvalidLayout)
            } else {
                Ok(st)
            },
        }
    }
}

/// The usage of key slot `i`: the field's first usage plus `i`, wrapping.
pub open spec fn slot_usage(first: u16, i: int) -> u16 {
    if first + i > u16::MAX {
        (first + i - 0x1_0000) as u16
    } else {
        (first + i) as u16
    }
}

proof fn lemma_u8_product(a: u8, b: u8)
    ensures
        a * b <= 65025,
{
    assert(a * b <= 255 * 255) by (nonlinear_arith)
        requires
            a <= 255,
            b <= 255,
    ;
}

/// The usages a keyboard report holds: up to six key slots, the rest zero.
pub open spec fn current_keys(report: Seq<u8>, keys: FieldView) -> Seq<u8> {
    Seq::new(
        MAX_KEYS as nat,
        |i: int|
            if i < keys.count && i < MAX_KEYS {
                field_value(report, keys, NO_SELECTED_USAGE, slot_usage(keys.usage_min, i)) as u8
            } else {
                0u8
            },
    )
}

/// A key event for `usage`, when the usage names a key.
pub open spec fn key_event(usage: u8, pressed: bool, modifiers: u8) -> Option<Event> {
    match usage_key_code(usage) {
        None => None,
        Some(code) => Some(
            Event::Key(
                KeyEvent {
                    code,
                    pressed,
                    repeat: false,
                    modifiers: Modifiers(modifiers),
                    text: if pressed { usage_text(usage, modifiers) } else { None },
                },
            ),
        ),
    }
}

/// Events for the usages of `keys` that are not in `other`, in order.
pub open spec fn key_changes(keys: Seq<u8>, other: Seq<u8>, pressed: bool, modifiers: u8) -> Seq<Event>
    decreases keys.len(),
{
    if keys.len() == 0 {
        Seq::empty()
    } else {
        let before = key_changes(keys.drop_last(), other, pressed, modifiers);
        let usage = keys.last();
        if usage != 0 && !other.contains(usage) {
            match key_event(usage, pressed, modifiers) {
                Some(e) => before.push(e),
                None => before,
            }
        } else {
            before
        }
    }
}

/// The pointer event of a mouse report.
pub open spec fn pointer_event(
    report: Seq<u8>,
    buttons: FieldView,
    x: FieldView,
    y: FieldView,
    wheel: Option<FieldView>,
    previous: u8,
) -> Event {
    let pressed = report_bits(report, buttons.bit_offset, buttons.bit_size * buttons.count) as u8;
    Event::Pointer(
        PointerEvent {
            dx: signed_field_value(report, x, USAGE_X) as i16,
            dy: signed_field_value(report, y, USAGE_Y) as i16,
            wheel: match wheel {
                Some(w) => signed_field_value(report, w, USAGE_WHEEL) as i8,
                None => 0,
            },
            buttons: Buttons(pressed & 0x1f),
            changed: Buttons((pressed ^ previous) & 0x1f),
        },
    )
}

/// What a report does: the events it makes, and the keys and buttons then held.
pub open spec fn report_effect(dev: DeviceView, report: Seq<u8>) -> (Seq<Event>, Seq<u8>, u8) {
    let fields = dev.fields;
    let roles = dev.roles;
    if report.len() < dev.report_bytes {
        (Seq::empty(), dev.previous_keys, dev.previous_buttons)
    } else if dev.kind == Kind::Keyboard {
        match (roles.modifiers, roles.keys) {
            (Some(m), Some(k)) => {
                let mf = fields[m as int];
                let bits = modifier_bits(report_bits(report, mf.bit_offset, mf.bit_size * mf.count) as u8);
                let current = current_keys(report, fields[k as int]);
                (
                    key_changes(current, dev.previous_keys, true, bits) + key_changes(
                        dev.previous_keys,
                        current,
                        false,
                        bits,
                    ),
                    current,
                    dev.previous_buttons,
                )
            },
            _ => (Seq::empty(), dev.previous_keys, dev.previous_buttons),
        }
    } else if dev.kind == Kind::Mouse {
        match (roles.buttons, roles.x, roles.y) {
            (Some(b), Some(x), Some(y)) => {
                let bf = fields[b as int];
                let wheel = match roles.wheel {
                    Some(w) => Some(fields[w as int]),
                    None => None,
                };
                let pressed = report_bits(report, bf.bit_offset, bf.bit_size * bf.count) as u8;
                (
                    seq![pointer_event(report, bf, fields[x as int], fields[y as int], wheel, dev.previous_buttons)],
                    dev.previous_keys,
                    pressed,
                )
            },
            _ => (Seq::empty(), dev.previous_keys, dev.previous_buttons),
        }
    } else {
        (Seq::empty(), dev.previous_keys, dev.previous_buttons)
    }
}

/// A device as values.
pub struct DeviceView {
    pub kind: Kind,
    pub report_bytes: int,
    pub fields: Seq<FieldView>,
    pub roles: Roles,
    pub previous_keys: Seq<u8>,
    pub previous_buttons: u8,
}

/// The queue after pushing `events` in order, each dropped when the queue is full.
pub open spec fn queued(q: Seq<Event>, events: Seq<Event>) -> Seq<Event>
    decreases events.len(),
{
    if events.len() == 0 {
        q
    } else {
        let before = queued(q, events.drop_last());
        if before.len() < QUEUE_CAPACITY {
            before.push(events.last())
        } else {
            before
        }
    }
}

fn contains_byte(s: &Vec<u8>, v: u8) -> (r: bool)
    ensures
        r == s@.contains(v),
{
    let mut k: usize = 0;
    while k < s.len()
        invariant
            k <= s@.len(),
            forall|j: int| 0 <= j < k ==> s@[j] != v,
        decreases s@.len() - k,
    {
        if s[k] == v {
            assert(s@[k as int] == v);
            return true;
        }
        k = k + 1;
    }
    false
}

fn make_key_event(usage: u8, pressed: bool, modifiers: u8) -> (r: Option<Event>)
    ensures
        r == key_event(usage, pressed, modifiers),
{
    match key_code(usage) {
        None => None,
        Some(code) => Some(
            Event::Key(
                KeyEvent {
                    code,
                    pressed,
                    repeat: false,
                    modifiers: Modifiers(modifiers),
                    text: if pressed { key_text(usage, modifiers) } else { None },
                },
            ),
        ),
    }
}

fn append_key_changes(events: &mut Vec<Event>, keys: &Vec<u8>, other: &Vec<u8>, pressed: bool, modifiers: u8)
    ensures
        final(events)@ == old(events)@ + key_changes(keys@, other@, pressed, modifiers),
{
    let mut k: usize = 0;
    assert(keys@.take(0) =~= Seq::<u8>::empty());
    assert(old(events)@ + key_changes(Seq::<u8>::empty(), other@, pressed, modifiers) =~= old(events)@);
    while k < keys.len()
        invariant
            k <= keys@.len(),
            events@ == old(events)@ + key_changes(keys@.take(k as int), other@, pressed, modifiers),
        decreases keys@.len() - k,
    {
        let usage = keys[k];
        assert(keys@.take(k + 1).drop_last() =~= keys@.take(k as int));
        assert(keys@.take(k + 1).last() == usage);
        if usage != 0 && !contains_byte(other, usage) {
            match make_key_event(usage, pressed, modifiers) {
                Some(e) => {
                    events.push(e);
                    assert(events@ =~= old(events)@ + key_changes(keys@.take(k + 1), other@, pressed, modifiers));
                },
                None => {},
            }
        }
        k = k + 1;
    }
    assert(keys@.take(k as int) =~= keys@);
}

impl Device {
    pub open spec fn wf(&self) -> bool {
        &&& self.layout.wf()
        &&& self.previous_keys@.len() == MAX_KEYS
    }

    pub open spec fn view(&self) -> DeviceView {
        DeviceView {
            kind: self.layout.kind,
            report_bytes: self.layout.report_bytes as int,
            fields: field_views(self.layout.fields@),
            roles: self.layout.roles,
            previous_keys: self.previous_keys@,
            previous_buttons: self.previous_buttons,
        }
    }

    /// The device a report descriptor describes, with no keys or buttons held.
    pub fn from_descriptor(descriptor: &[u8]) -> (r: Result<Self, Error>)
        ensures
            match descriptor_layout(descriptor@) {
                Err(e) => r matches Err(f) && f == e,
                Ok(st) => r matches Ok(dev) && {
                    &&& dev.wf()
                    &&& dev@.fields == st.fields
                    &&& dev@.roles == roles_of(st.fields)
                    &&& dev@.kind == kind_of(roles_of(st.fields))
                    &&& dev@.report_bytes == (st.bit_offset + 7) / 8
                    &&& dev@.previous_keys == Seq::new(MAX_KEYS as nat, |i: int| 0u8)
                    &&& dev@.previous_buttons == 0
                },
            },
    {
        if descriptor.len() == 0 || descriptor.len() > MAX_DESCRIPTOR_BYTES {
            return Err(Error::InvalidItem);
        }
        let layout = match parse_layout(descriptor) {
            Ok(l) => l,
            Err(e) => return Err(e),
        };
        if layout.report_bytes == 0 || layout.report_bytes > MAX_REPORT_BYTES {
            return Err(Error::InvalidLayout);
        }
        let previous_keys = crate::bytes::zeroes(MAX_KEYS);
        Ok(Device { layout, previous_keys, previous_buttons: 0 })
    }

    pub fn kind(&self) -> (r: Kind)
        ensures
            r == self.layout.kind,
    {
        self.layout.kind
    }

    pub fn report_bytes(&self) -> (r: usize)
        ensures
            r == self.layout.report_bytes,
    {
        self.layout.report_bytes
    }

    /// The events a report makes, remembering what it holds; a report shorter than the
    /// layout's is ignored.
    pub fn report_events(&mut self, report: &[u8]) -> (r: Vec<Event>)
        requires
            old(self).wf(),
        ensures
            final(self).wf(),
            final(self).layout == old(self).layout,
            ({
                let (events, keys, buttons) = report_effect(old(self)@, report@);
                &&& r@ == events
                &&& final(self)@.previous_keys == keys
                &&& final(self)@.previous_buttons == buttons
            }),
    {
        let mut events: Vec<Event> = Vec::new();
        if report.len() < self.layout.report_bytes {
            return events;
        }
        match self.layout.kind {
            Kind::Keyboard => {
                let (m, k) = match (self.layout.roles.modifiers, self.layout.roles.keys) {
                    (Some(m), Some(k)) => (m, k),
                    _ => return events,
                };
                let mf = &self.layout.fields[m];
                let kf = &self.layout.fields[k];
                proof {
                    lemma_u8_product(mf.bit_size, mf.count);
                }
                let modifier_value = read_bits(report, mf.bit_offset, mf.bit_size as usize * mf.count as usize);
                let bits = hid_modifiers(modifier_value as u8);
                let mut current: Vec<u8> = Vec::new();
                let mut i: usize = 0;
                while i < MAX_KEYS
                    invariant
                        i <= MAX_KEYS,
                        kf.usages@.len() <= MAX_USAGES,
                        current@ == current_keys(report@, kf@).take(i as int),
                    decreases MAX_KEYS - i,
                {
                    let usage = if i < kf.count as usize {
                        read_field(report, kf, NO_SELECTED_USAGE, kf.usage_min.wrapping_add(i as u16)) as u8
                    } else {
                        0
                    };
                    current.push(usage);
                    assert(current@ =~= current_keys(report@, kf@).take(i + 1));
                    i = i + 1;
                }
                assert(current@ =~= current_keys(report@, kf@));
                append_key_changes(&mut events, &current, &self.previous_keys, true, bits);
                append_key_changes(&mut events, &self.previous_keys, &current, false, bits);
                self.previous_keys = current;
                events
            },
            Kind::Mouse => {
                let (b, x, y) = match (self.layout.roles.buttons, self.layout.roles.x, self.layout.roles.y) {
                    (Some(b), Some(x), Some(y)) => (b, x, y),
                    _ => return events,
                };
                let bf = &self.layout.fields[b];
                proof {
                    lemma_u8_product(bf.bit_size, bf.count);
                }
                let pressed = read_bits(report, bf.bit_offset, bf.bit_size as usize * bf.count as usize) as u8;
                let dx = read_signed_field(report, &self.layout.fields[x], USAGE_X) as i16;
                let dy = read_signed_field(report, &self.layout.fields[y], USAGE_Y) as i16;
                let wheel = match self.layout.roles.wheel {
                    Some(w) => read_signed_field(report, &self.layout.fields[w], USAGE_WHEEL) as i8,
                    None => 0,
                };
                let changed = pressed ^ self.previous_buttons;
                self.previous_buttons = pressed;
                events.push(
                    Event::Pointer(
                        PointerEvent {
                            dx,
                            dy,
                            wheel,
                            buttons: Buttons(pressed & 0x1f),
                            changed: Buttons(changed & 0x1f),
                        },
                    ),
                );
                events
            },
            Kind::Other => events,
        }
    }

    /// Queues the events a report makes; a full queue drops them.
    pub fn feed(&mut self, report: &[u8], input: &mut InputQueue)
        requires
            old(self).wf(),
        ensures
            final(self).wf(),
            final(self).layout == old(self).layout,
            ({
                let (events, keys, buttons) = report_effect(old(self)@, report@);
                &&& final(input)@ == queued(old(input)@, events)
                &&& final(self)@.previous_keys == keys
                &&& final(self)@.previous_buttons == buttons
            }),
    {
        let events = self.report_events(report);
        let mut i: usize = 0;
        assert(events@.take(0) =~= Seq::<Event>::empty());
        while i < events.len()
            invariant
                i <= events@.len(),
                input@ == queued(old(input)@, events@.take(i as int)),
            decreases events@.len() - i,
        {
            assert(events@.take(i + 1).drop_last() =~= events@.take(i as int));
            input.push(events[i]);
            i = i + 1;
        }
        assert(events@.take(i as int) =~= events@);
    }
}

pub open spec fn boot_keyboard_descriptor_bytes() -> Seq<u8> {
    seq![0x05u8, 0x01u8, 0x09u8, 0x06u8, 0xa1u8, 0x01u8, 0x05u8, 0x07u8, 0x19u8, 0xe0u8, 0x29u8, 0xe7u8, 0x15u8, 0x00u8, 0x25u8, 0x01u8, 0x75u8, 0x01u8, 0x95u8, 0x08u8, 0x81u8, 0x02u8, 0x95u8, 0x01u8, 0x75u8, 0x08u8, 0x81u8, 0x01u8, 0x95u8, 0x05u8, 0x75u8, 0x01u8, 0x05u8, 0x08u8, 0x19u8, 0x01u8, 0x29u8, 0x05u8, 0x91u8, 0x02u8, 0x95u8, 0x01u8, 0x75u8, 0x03u8, 0x91u8, 0x01u8, 0x95u8, 0x06u8, 0x75u8, 0x08u8, 0x15u8, 0x00u8, 0x25u8, 0x65u8, 0x05u8, 0x07u8, 0x19u8, 0x00u8, 0x29u8, 0x65u8, 0x81u8, 0x00u8, 0xc0u8]
}

/// The report descriptor of a boot keyboard: modifiers, a reserved byte, LED outputs and
/// six key slots.
pub fn boot_keyboard_descriptor() -> (r: Vec<u8>)
    ensures
        r@ == boot_keyboard_descriptor_bytes(),
{
    let v = vec![0x05u8, 0x01u8, 0x09u8, 0x06u8, 0xa1u8, 0x01u8, 0x05u8, 0x07u8, 0x19u8, 0xe0u8, 0x29u8, 0xe7u8, 0x15u8, 0x00u8, 0x25u8, 0x01u8, 0x75u8, 0x01u8, 0x95u8, 0x08u8, 0x81u8, 0x02u8, 0x95u8, 0x01u8, 0x75u8, 0x08u8, 0x81u8, 0x01u8, 0x95u8, 0x05u8, 0x75u8, 0x01u8, 0x05u8, 0x08u8, 0x19u8, 0x01u8, 0x29u8, 0x05u8, 0x91u8, 0x02u8, 0x95u8, 0x01u8, 0x75u8, 0x03u8, 0x91u8, 0x01u8, 0x95u8, 0x06u8, 0x75u8, 0x08u8, 0x15u8, 0x00u8, 0x25u8, 0x65u8, 0x05u8, 0x07u8, 0x19u8, 0x00u8, 0x29u8, 0x65u8, 0x81u8, 0x00u8, 0xc0u8];
    assert(v@ =~= boot_keyboard_descriptor_bytes());
    v
}

pub open spec fn boot_mouse_descriptor_bytes() -> Seq<u8> {
    seq![0x05u8, 0x01u8, 0x09u8, 0x02u8, 0xa1u8, 0x01u8, 0x09u8, 0x01u8, 0xa1u8, 0x00u8, 0x05u8, 0x09u8, 0x19u8, 0x01u8, 0x29u8, 0x03u8, 0x15u8, 0x00u8, 0x25u8, 0x01u8, 0x95u8, 0x03u8, 0x75u8, 0x01u8, 0x81u8, 0x02u8, 0x95u8, 0x01u8, 0x75u8, 0x05u8, 0x81u8, 0x01u8, 0x05u8, 0x01u8, 0x09u8, 0x30u8, 0x09u8, 0x31u8, 0x09u8, 0x38u8, 0x15u8, 0x81u8, 0x25u8, 0x7fu8, 0x75u8, 0x08u8, 0x95u8, 0x03u8, 0x81u8, 0x06u8, 0xc0u8, 0xc0u8]
}

/// The report descriptor of a three-button mouse with X, Y and wheel.
pub fn boot_mouse_descriptor() -> (r: Vec<u8>)
    ensures
        r@ == boot_mouse_descriptor_bytes(),
{
    let v = vec![0x05u8, 0x01u8, 0x09u8, 0x02u8, 0xa1u8, 0x01u8, 0x09u8, 0x01u8, 0xa1u8, 0x00u8, 0x05u8, 0x09u8, 0x19u8, 0x01u8, 0x29u8, 0x03u8, 0x15u8, 0x00u8, 0x25u8, 0x01u8, 0x95u8, 0x03u8, 0x75u8, 0x01u8, 0x81u8, 0x02u8, 0x95u8, 0x01u8, 0x75u8, 0x05u8, 0x81u8, 0x01u8, 0x05u8, 0x01u8, 0x09u8, 0x30u8, 0x09u8, 0x31u8, 0x09u8, 0x38u8, 0x15u8, 0x81u8, 0x25u8, 0x7fu8, 0x75u8, 0x08u8, 0x95u8, 0x03u8, 0x81u8, 0x06u8, 0xc0u8, 0xc0u8];
    assert(v@ =~= boot_mouse_descriptor_bytes());
    v
}

/// Parses the boot keyboard and mouse descriptors and feeds each a report: a shifted
/// key press and its release, and a left click with motion and wheel.
pub fn contract_self_check() -> (r: bool) {
    let mut input = InputQueue::new();
    let mut device = match Device::from_descriptor(boot_keyboard_descriptor().as_slice()) {
        Ok(d) => d,
        Err(_) => return false,
    };
    if device.kind() != Kind::Keyboard || device.report_bytes() != 8 {
        return false;
    }
    let mut report = crate::bytes::zeroes(8);
    report.set(0, 2);
    report.set(2, 4);
    device.feed(report.as_slice(), &mut input);
    match input.pop() {
        Some(Event::Key(event)) => if !event.pressed || !event.modifiers.contains(Modifiers::SHIFT) {
            return false;
        },
        _ => return false,
    }
    report.set(0, 0);
    report.set(2, 0);
    device.feed(report.as_slice(), &mut input);
    match input.pop() {
        Some(Event::Key(event)) => if event.pressed {
            return false;
        },
        _ => return false,
    }
    let mut mouse = match Device::from_descriptor(boot_mouse_descriptor().as_slice()) {
        Ok(d) => d,
        Err(_) => return false,
    };
    if mouse.kind() != Kind::Mouse || mouse.report_bytes() != 4 {
        return false;
    }
    if signed_value(255, 1) != -1 || signed_bits(255, 8) != -1 {
        return false;
    }
    input.reset();
    let packet: Vec<u8> = vec![1u8, 1, 0xff, 1];
    mouse.feed(packet.as_slice(), &mut input);
    match input.pop() {
        Some(Event::Pointer(event)) => event.dx == 1 && event.dy == -1 && event.wheel == 1 && event.buttons.bits()
            == Buttons::LEFT && event.changed.bits() == Buttons::LEFT,
        _ => false,
    }
}

/// The usage that reports each key on the HID keyboard/keypad page, for the keys this
/// driver decodes.
pub open spec fn hid_usage_of(code: KeyCode) -> Option<u8> {
    match code {
        KeyCode::A => Some(0x04u8),
        KeyCode::B => Some(0x05u8),
        KeyCode::C => Some(0x06u8),
        KeyCode::D => Some(0x07u8),
        KeyCode::E => Some(0x08u8),
        KeyCode::F => Some(0x09u8),
        KeyCode::G => Some(0x0au8),
        KeyCode::H => Some(0x0bu8),
        KeyCode::I => Some(0x0cu8),
        KeyCode::J => Some(0x0du8),
        KeyCode::K => Some(0x0eu8),
        KeyCode::L => Some(0x0fu8),
        KeyCode::M => Some(0x10u8),
        KeyCode::N => Some(0x11u8),
        KeyCode::O => Some(0x12u8),
        KeyCode::P => Some(0x13u8),
        KeyCode::Q => Some(0x14u8),
        KeyCode::R => Some(0x15u8),
        KeyCode::S => Some(0x16u8),
        KeyCode::T => Some(0x17u8),
        KeyCode::U => Some(0x18u8),
        KeyCode::V => Some(0x19u8),
        KeyCode::W => Some(0x1au8),
        KeyCode::X => Some(0x1bu8),
        KeyCode::Y => Some(0x1cu8),
        KeyCode::Z => Some(0x1du8),
        KeyCode::Num1 => Some(0x1eu8),
        KeyCode::Num2 => Some(0x1fu8),
        KeyCode::Num3 => Some(0x20u8),
        KeyCode::Num4 => Some(0x21u8),
        KeyCode::Num5 => Some(0x22u8),
        KeyCode::Num6 => Some(0x23u8),
        KeyCode::Num7 => Some(0x24u8),
        KeyCode::Num8 => Some(0x25u8),
        KeyCode::Num9 => Some(0x26u8),
        KeyCode::Num0 => Some(0x27u8),
        KeyCode::Enter => Some(0x28u8),
        KeyCode::Escape => Some(0x29u8),
        KeyCode::Backspace => Some(0x2au8),
        KeyCode::Tab => Some(0x2bu8),
        KeyCode::Space => Some(0x2cu8),
        KeyCode::Minus => Some(0x2du8),
        KeyCode::Equals => Some(0x2eu8),
        KeyCode::LeftBracket => Some(0x2fu8),
        KeyCode::RightBracket => Some(0x30u8),
        KeyCode::Backslash => Some(0x31u8),
        KeyCode::Semicolon => Some(0x33u8),
        KeyCode::Apostrophe => Some(0x34u8),
        KeyCode::Grave => Some(0x35u8),
        KeyCode::Comma => Some(0x36u8),
        KeyCode::Dot => Some(0x37u8),
        KeyCode::Slash => Some(0x38u8),
        KeyCode::CapsLock => Some(0x39u8),
        KeyCode::F1 => Some(0x3au8),
        KeyCode::F2 => Some(0x3bu8),
        KeyCode::F3 => Some(0x3cu8),
        KeyCode::F4 => Some(0x3du8),
        KeyCode::F5 => Some(0x3eu8),
        KeyCode::F6 => Some(0x3fu8),
        KeyCode::F7 => Some(0x40u8),
        KeyCode::F8 => Some(0x41u8),
        KeyCode::F9 => Some(0x42u8),
        KeyCode::F10 => Some(0x43u8),
        KeyCode::F11 => Some(0x44u8),
        KeyCode::F12 => Some(0x45u8),
        KeyCode::ScrollLock => Some(0x47u8),
        KeyCode::Pause => Some(0x48u8),
        KeyCode::Insert => Some(0x49u8),
        KeyCode::Home => Some(0x4au8),
        KeyCode::PageUp => Some(0x4bu8),
        KeyCode::Delete => Some(0x4cu8),
        KeyCode::End => Some(0x4du8),
        KeyCode::PageDown => Some(0x4eu8),
        KeyCode::ArrowRight => Some(0x4fu8),
        KeyCode::ArrowLeft => Some(0x50u8),
        KeyCode::ArrowDown => Some(0x51u8),
        KeyCode::ArrowUp => Some(0x52u8),
        KeyCode::NumLock => Some(0x53u8),
        KeyCode::LeftCtrl => Some(0xe0u8),
        KeyCode::LeftShift => Some(0xe1u8),
        KeyCode::LeftAlt => Some(0xe2u8),
        KeyCode::LeftGui => Some(0xe3u8),
        KeyCode::RightCtrl => Some(0xe4u8),
        KeyCode::RightShift => Some(0xe5u8),
        KeyCode::RightAlt => Some(0xe6u8),
        KeyCode::RightGui => Some(0xe7u8),
        _ => None,
    }
}

/// Each usage names the key whose usage it is on the keyboard page.
proof fn lemma_key_code_inverse(usage: u8)
    ensures
        usage_key_code(usage) matches Some(code) ==> hid_usage_of(code) == Some(usage),
{
}

/// Usages 0x04 to 0x1d are the letters A to Z in alphabetical order, 0x1e to 0x26 the
/// digits 1 to 9 and 0x27 the digit 0, 0x3a to 0x45 the function keys F1 to F12; and no
/// two usages name the same key.
pub proof fn law_key_code_table(usage: u8, other: u8)
    ensures
        0x04 <= usage <= 0x1d ==> (usage_key_code(usage) matches Some(code) && spec_key_index(code) == usage - 0x04),
        0x1e <= usage <= 0x26 ==> (usage_key_code(usage) matches Some(code) && spec_key_index(code)
            == spec_key_index(KeyCode::Num1) + (usage - 0x1e)),
        usage_key_code(0x27) == Some(KeyCode::Num0),
        0x3a <= usage <= 0x45 ==> (usage_key_code(usage) matches Some(code) && spec_key_index(code)
            == spec_key_index(KeyCode::F1) + (usage - 0x3a)),
        usage_key_code(usage) is Some && usage_key_code(usage) == usage_key_code(other) ==> usage == other,
{
    lemma_key_code_inverse(usage);
    lemma_key_code_inverse(other);
}

} // verus!
