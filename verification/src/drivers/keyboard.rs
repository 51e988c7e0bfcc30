use vstd::prelude::*;
use crate::input::{Event, InputQueue, KeyCode, KeyEvent, Modifiers, KEY_COUNT, spec_key_index};
use crate::drivers::ps2::Controller;

verus! {

pub const SET_SCANCODE: u8 = 0xf0;
pub const SET_TWO: u8 = 0x02;
pub const ENABLE_SCANNING: u8 = 0xf4;
/// How many bytes one poll takes from the controller at most.
pub const POLL_LIMIT: usize = 32;

#[derive(Clone, Copy, Debug, PartialEq, Eq, Structural)]
pub enum Layout {
    Us,
    Ru,
}

#[derive(Clone, Copy, Debug, PartialEq, Eq, Structural)]
pub enum RepeatPolicy {
    Disabled,
    Hardware,
}

#[derive(Clone, Copy, Debug, PartialEq, Eq, Structural)]
pub enum InitResult {
    Ready,
    Unsupported,
    Failed,
}

#[derive(Clone, Copy, Debug, PartialEq, Eq, Structural)]
pub struct Status {
    pub layout: Layout,
    pub repeat: RepeatPolicy,
    pub held: usize,
    pub parser_pending: bool,
    pub events_dropped: u64,
}

#[derive(Clone, Copy, Debug, PartialEq, Eq, Structural)]
pub struct ScanEvent {
    pub code: KeyCode,
    pub pressed: bool,
}

/// The key a scan code set 2 make code names; `extended` after an 0xe0 prefix.
pub open spec fn spec_map_scan_code(extended: bool, byte: u8) -> Option<KeyCode> {
    if extended {
        match byte {
            0x11 => Some(KeyCode::RightAlt),
            0x14 => Some(KeyCode::RightCtrl),
            0x1f => Some(KeyCode::LeftGui),
            0x27 => Some(KeyCode::RightGui),
            0x4a => Some(KeyCode::KeypadSlash),
            0x5a => Some(KeyCode::KeypadEnter),
            0x69 => Some(KeyCode::End),
            0x6b => Some(KeyCode::ArrowLeft),
            0x6c => Some(KeyCode::Home),
            0x70 => Some(KeyCode::Insert),
            0x71 => Some(KeyCode::Delete),
            0x72 => Some(KeyCode::ArrowDown),
            0x74 => Some(KeyCode::ArrowRight),
            0x75 => Some(KeyCode::ArrowUp),
            0x7a => Some(KeyCode::PageDown),
            0x7c => Some(KeyCode::PrintScreen),
            0x7d => Some(KeyCode::PageUp),
            _ => None,
        }
    } else {
        match byte {
            0x01 => Some(KeyCode::F9),
            0x03 => Some(KeyCode::F5),
            0x04 => Some(KeyCode::F3),
            0x05 => Some(KeyCode::F1),
            0x06 => Some(KeyCode::F2),
            0x07 => Some(KeyCode::F12),
            0x09 => Some(KeyCode::F10),
            0x0a => Some(KeyCode::F8),
            0x0b => Some(KeyCode::F6),
            0x0c => Some(KeyCode::F4),
            0x0d => Some(KeyCode::Tab),
            0x0e => Some(KeyCode::Grave),
            0x11 => Some(KeyCode::LeftAlt),
            0x12 => Some(KeyCode::LeftShift),
            0x14 => Some(KeyCode::LeftCtrl),
            0x15 => Some(KeyCode::Q),
            0x16 => Some(KeyCode::Num1),
            0x1a => Some(KeyCode::Z),
            0x1b => Some(KeyCode::S),
            0x1c => Some(KeyCode::A),
            0x1d => Some(KeyCode::W),
            0x1e => Some(KeyCode::Num2),
            0x21 => Some(KeyCode::C),
            0x22 => Some(KeyCode::X),
            0x23 => Some(KeyCode::D),
            0x24 => Some(KeyCode::E),
            0x25 => Some(KeyCode::Num4),
            0x26 => Some(KeyCode::Num3),
            0x29 => Some(KeyCode::Space),
            0x2a => Some(KeyCode::V),
            0x2b => Some(KeyCode::F),
            0x2c => Some(KeyCode::T),
            0x2d => Some(KeyCode::R),
            0x2e => Some(KeyCode::Num5),
            0x31 => Some(KeyCode::N),
            0x32 => Some(KeyCode::B),
            0x33 => Some(KeyCode::H),
            0x34 => Some(KeyCode::G),
            0x35 => Some(KeyCode::Y),
            0x36 => Some(KeyCode::Num6),
            0x3a => Some(KeyCode::M),
            0x3b => Some(KeyCode::J),
            0x3c => Some(KeyCode::U),
            0x3d => Some(KeyCode::Num7),
            0x3e => Some(KeyCode::Num8),
            0x41 => Some(KeyCode::Comma),
            0x42 => Some(KeyCode::K),
            0x43 => Some(KeyCode::I),
            0x44 => Some(KeyCode::O),
            0x45 => Some(KeyCode::Num0),
            0x46 => Some(KeyCode::Num9),
            0x49 => Some(KeyCode::Dot),
            0x4a => Some(KeyCode::Slash),
            0x4b => Some(KeyCode::L),
            0x4c => Some(KeyCode::Semicolon),
            0x4d => Some(KeyCode::P),
            0x4e => Some(KeyCode::Minus),
            0x52 => Some(KeyCode::Apostrophe),
            0x54 => Some(KeyCode::LeftBracket),
            0x55 => Some(KeyCode::Equals),
            0x58 => Some(KeyCode::CapsLock),
            0x59 => Some(KeyCode::RightShift),
            0x5a => Some(KeyCode::Enter),
            0x5b => Some(KeyCode::RightBracket),
            0x5d => Some(KeyCode::Backslash),
            0x66 => Some(KeyCode::Backspace),
            0x76 => Some(KeyCode::Escape),
            0x77 => Some(KeyCode::NumLock),
            0x7e => Some(KeyCode::ScrollLock),
            0x78 => Some(KeyCode::F11),
            0x83 => Some(KeyCode::F7),
            _ => None,
        }
    }
}

pub fn map_scan_code(extended: bool, byte: u8) -> (r: Option<KeyCode>)
    ensures
        r == spec_map_scan_code(extended, byte),
{
    if extended {
        match byte {
            0x11 => Some(KeyCode::RightAlt),
            0x14 => Some(KeyCode::RightCtrl),
            0x1f => Some(KeyCode::LeftGui),
            0x27 => Some(KeyCode::RightGui),
            0x4a => Some(KeyCode::KeypadSlash),
            0x5a => Some(KeyCode::KeypadEnter),
            0x69 => Some(KeyCode::End),
            0x6b => Some(KeyCode::ArrowLeft),
            0x6c => Some(KeyCode::Home),
            0x70 => Some(KeyCode::Insert),
            0x71 => Some(KeyCode::Delete),
            0x72 => Some(KeyCode::ArrowDown),
            0x74 => Some(KeyCode::ArrowRight),
            0x75 => Some(KeyCode::ArrowUp),
            0x7a => Some(KeyCode::PageDown),
            0x7c => Some(KeyCode::PrintScreen),
            0x7d => Some(KeyCode::PageUp),
            _ => None,
        }
    } else {
        match byte {
            0x01 => Some(KeyCode::F9),
            0x03 => Some(KeyCode::F5),
            0x04 => Some(KeyCode::F3),
            0x05 => Some(KeyCode::F1),
            0x06 => Some(KeyCode::F2),
            0x07 => Some(KeyCode::F12),
            0x09 => Some(KeyCode::F10),
            0x0a => Some(KeyCode::F8),
            0x0b => Some(KeyCode::F6),
            0x0c => Some(KeyCode::F4),
            0x0d => Some(KeyCode::Tab),
            0x0e => Some(KeyCode::Grave),
            0x11 => Some(KeyCode::LeftAlt),
            0x12 => Some(KeyCode::LeftShift),
            0x14 => Some(KeyCode::LeftCtrl),
            0x15 => Some(KeyCode::Q),
            0x16 => Some(KeyCode::Num1),
            0x1a => Some(KeyCode::Z),
            0x1b => Some(KeyCode::S),
            0x1c => Some(KeyCode::A),
            0x1d => Some(KeyCode::W),
            0x1e => Some(KeyCode::Num2),
            0x21 => Some(KeyCode::C),
            0x22 => Some(KeyCode::X),
            0x23 => Some(KeyCode::D),
            0x24 => Some(KeyCode::E),
            0x25 => Some(KeyCode::Num4),
            0x26 => Some(KeyCode::Num3),
            0x29 => Some(KeyCode::Space),
            0x2a => Some(KeyCode::V),
            0x2b => Some(KeyCode::F),
            0x2c => Some(KeyCode::T),
            0x2d => Some(KeyCode::R),
            0x2e => Some(KeyCode::Num5),
            0x31 => Some(KeyCode::N),
            0x32 => Some(KeyCode::B),
            0x33 => Some(KeyCode::H),
            0x34 => Some(KeyCode::G),
            0x35 => Some(KeyCode::Y),
            0x36 => Some(KeyCode::Num6),
            0x3a => Some(KeyCode::M),
            0x3b => Some(KeyCode::J),
            0x3c => Some(KeyCode::U),
            0x3d => Some(KeyCode::Num7),
            0x3e => Some(KeyCode::Num8),
            0x41 => Some(KeyCode::Comma),
            0x42 => Some(KeyCode::K),
            0x43 => Some(KeyCode::I),
            0x44 => Some(KeyCode::O),
            0x45 => Some(KeyCode::Num0),
            0x46 => Some(KeyCode::Num9),
            0x49 => Some(KeyCode::Dot),
            0x4a => Some(KeyCode::Slash),
            0x4b => Some(KeyCode::L),
            0x4c => Some(KeyCode::Semicolon),
            0x4d => Some(KeyCode::P),
            0x4e => Some(KeyCode::Minus),
            0x52 => Some(KeyCode::Apostrophe),
            0x54 => Some(KeyCode::LeftBracket),
            0x55 => Some(KeyCode::Equals),
            0x58 => Some(KeyCode::CapsLock),
            0x59 => Some(KeyCode::RightShift),
            0x5a => Some(KeyCode::Enter),
            0x5b => Some(KeyCode::RightBracket),
            0x5d => Some(KeyCode::Backslash),
            0x66 => Some(KeyCode::Backspace),
            0x76 => Some(KeyCode::Escape),
            0x77 => Some(KeyCode::NumLock),
            0x7e => Some(KeyCode::ScrollLock),
            0x78 => Some(KeyCode::F11),
            0x83 => Some(KeyCode::F7),
            _ => None,
        }
    }
}

/// The lower and upper case letters a key types in a layout.
pub open spec fn spec_letter_pair(code: KeyCode, layout: Layout) -> Option<(char, char)> {
    match layout {
        Layout::Us => match code {
            KeyCode::Q => Some(('q', 'Q')),
            KeyCode::W => Some(('w', 'W')),
            KeyCode::E => Some(('e', 'E')),
            KeyCode::R => Some(('r', 'R')),
            KeyCode::T => Some(('t', 'T')),
            KeyCode::Y => Some(('y', 'Y')),
            KeyCode::U => Some(('u', 'U')),
            KeyCode::I => Some(('i', 'I')),
            KeyCode::O => Some(('o', 'O')),
            KeyCode::P => Some(('p', 'P')),
            KeyCode::A => Some(('a', 'A')),
            KeyCode::S => Some(('s', 'S')),
            KeyCode::D => Some(('d', 'D')),
            KeyCode::F => Some(('f', 'F')),
            KeyCode::G => Some(('g', 'G')),
            KeyCode::H => Some(('h', 'H')),
            KeyCode::J => Some(('j', 'J')),
            KeyCode::K => Some(('k', 'K')),
            KeyCode::L => Some(('l', 'L')),
            KeyCode::Z => Some(('z', 'Z')),
            KeyCode::X => Some(('x', 'X')),
            KeyCode::C => Some(('c', 'C')),
            KeyCode::V => Some(('v', 'V')),
            KeyCode::B => Some(('b', 'B')),
            KeyCode::N => Some(('n', 'N')),
            KeyCode::M => Some(('m', 'M')),
            _ => None,
        },
        Layout::Ru => match code {
            KeyCode::Q => Some(('й', 'Й')),
            KeyCode::W => Some(('ц', 'Ц')),
            KeyCode::E => Some(('у', 'У')),
            KeyCode::R => Some(('к', 'К')),
            KeyCode::T => Some(('е', 'Е')),
            KeyCode::Y => Some(('н', 'Н')),
            KeyCode::U => Some(('г', 'Г')),
            KeyCode::I => Some(('ш', 'Ш')),
            KeyCode::O => Some(('щ', 'Щ')),
            KeyCode::P => Some(('з', 'З')),
            KeyCode::A => Some(('ф', 'Ф')),
            KeyCode::S => Some(('ы', 'Ы')),
            KeyCode::D => Some(('в', 'В')),
            KeyCode::F => Some(('а', 'А')),
            KeyCode::G => Some(('п', 'П')),
            KeyCode::H => Some(('р', 'Р')),
            KeyCode::J => Some(('о', 'О')),
            KeyCode::K => Some(('л', 'Л')),
            KeyCode::L => Some(('д', 'Д')),
            KeyCode::Z => Some(('я', 'Я')),
            KeyCode::X => Some(('ч', 'Ч')),
            KeyCode::C => Some(('с', 'С')),
            KeyCode::V => Some(('м', 'М')),
            KeyCode::B => Some(('и', 'И')),
            KeyCode::N => Some(('т', 'Т')),
            KeyCode::M => Some(('ь', 'Ь')),
            _ => None,
        },
    }
}

pub fn letter_pair(code: KeyCode, layout: Layout) -> (r: Option<(char, char)>)
    ensures
        r == spec_letter_pair(code, layout),
{
    match layout {
        Layout::Us => match code {
            KeyCode::Q => Some(('q', 'Q')),
            KeyCode::W => Some(('w', 'W')),
            KeyCode::E => Some(('e', 'E')),
            KeyCode::R => Some(('r', 'R')),
            KeyCode::T => Some(('t', 'T')),
            KeyCode::Y => Some(('y', 'Y')),
            KeyCode::U => Some(('u', 'U')),
            KeyCode::I => Some(('i', 'I')),
            KeyCode::O => Some(('o', 'O')),
            KeyCode::P => Some(('p', 'P')),
            KeyCode::A => Some(('a', 'A')),
            KeyCode::S => Some(('s', 'S')),
            KeyCode::D => Some(('d', 'D')),
            KeyCode::F => Some(('f', 'F')),
            KeyCode::G => Some(('g', 'G')),
            KeyCode::H => Some(('h', 'H')),
            KeyCode::J => Some(('j', 'J')),
            KeyCode::K => Some(('k', 'K')),
            KeyCode::L => Some(('l', 'L')),
            KeyCode::Z => Some(('z', 'Z')),
            KeyCode::X => Some(('x', 'X')),
            KeyCode::C => Some(('c', 'C')),
            KeyCode::V => Some(('v', 'V')),
            KeyCode::B => Some(('b', 'B')),
            KeyCode::N => Some(('n', 'N')),
            KeyCode::M => Some(('m', 'M')),
            _ => None,
        },
        Layout::Ru => match code {
            KeyCode::Q => Some(('й', 'Й')),
            KeyCode::W => Some(('ц', 'Ц')),
            KeyCode::E => Some(('у', 'У')),
            KeyCode::R => Some(('к', 'К')),
            KeyCode::T => Some(('е', 'Е')),
            KeyCode::Y => Some(('н', 'Н')),
            KeyCode::U => Some(('г', 'Г')),
            KeyCode::I => Some(('ш', 'Ш')),
            KeyCode::O => Some(('щ', 'Щ')),
            KeyCode::P => Some(('з', 'З')),
            KeyCode::A => Some(('ф', 'Ф')),
            KeyCode::S => Some(('ы', 'Ы')),
            KeyCode::D => Some(('в', 'В')),
            KeyCode::F => Some(('а', 'А')),
            KeyCode::G => Some(('п', 'П')),
            KeyCode::H => Some(('р', 'Р')),
            KeyCode::J => Some(('о', 'О')),
            KeyCode::K => Some(('л', 'Л')),
            KeyCode::L => Some(('д', 'Д')),
            KeyCode::Z => Some(('я', 'Я')),
            KeyCode::X => Some(('ч', 'Ч')),
            KeyCode::C => Some(('с', 'С')),
            KeyCode::V => Some(('м', 'М')),
            KeyCode::B => Some(('и', 'И')),
            KeyCode::N => Some(('т', 'Т')),
            KeyCode::M => Some(('ь', 'Ь')),
            _ => None,
        },
    }
}

/// The character a non-letter key types, shifted or not.
pub open spec fn spec_symbol(code: KeyCode, shifted: bool) -> Option<char> {
    match code {
        KeyCode::Num1 => Some(if shifted { '!' } else { '1' }),
        KeyCode::Num2 => Some(if shifted { '@' } else { '2' }),
        KeyCode::Num3 => Some(if shifted { '#' } else { '3' }),
        KeyCode::Num4 => Some(if shifted { '$' } else { '4' }),
        KeyCode::Num5 => Some(if shifted { '%' } else { '5' }),
        KeyCode::Num6 => Some(if shifted { '^' } else { '6' }),
        KeyCode::Num7 => Some(if shifted { '&' } else { '7' }),
        KeyCode::Num8 => Some(if shifted { '*' } else { '8' }),
        KeyCode::Num9 => Some(if shifted { '(' } else { '9' }),
        KeyCode::Num0 => Some(if shifted { ')' } else { '0' }),
        KeyCode::Grave => Some(if shifted { '~' } else { '`' }),
        KeyCode::Minus => Some(if shifted { '_' } else { '-' }),
        KeyCode::Equals => Some(if shifted { '+' } else { '=' }),
        KeyCode::LeftBracket => Some(if shifted { '{' } else { '[' }),
        KeyCode::RightBracket => Some(if shifted { '}' } else { ']' }),
        KeyCode::Backslash => Some(if shifted { '|' } else { '\\' }),
        KeyCode::Semicolon => Some(if shifted { ':' } else { ';' }),
        KeyCode::Apostrophe => Some(if shifted { '"' } else { '\'' }),
        KeyCode::Comma => Some(if shifted { '<' } else { ',' }),
        KeyCode::Dot => Some(if shifted { '>' } else { '.' }),
        KeyCode::Slash => Some(if shifted { '?' } else { '/' }),
        KeyCode::Space => Some(' '),
        KeyCode::Tab => Some('\t'),
        KeyCode::Enter => Some('\n'),
        KeyCode::Backspace => Some('\x08'),
        _ => None,
    }
}

pub fn symbol(code: KeyCode, shifted: bool) -> (r: Option<char>)
    ensures
        r == spec_symbol(code, shifted),
{
    match code {
        KeyCode::Num1 => Some(if shifted { '!' } else { '1' }),
        KeyCode::Num2 => Some(if shifted { '@' } else { '2' }),
        KeyCode::Num3 => Some(if shifted { '#' } else { '3' }),
        KeyCode::Num4 => Some(if shifted { '$' } else { '4' }),
        KeyCode::Num5 => Some(if shifted { '%' } else { '5' }),
        KeyCode::Num6 => Some(if shifted { '^' } else { '6' }),
        KeyCode::Num7 => Some(if shifted { '&' } else { '7' }),
        KeyCode::Num8 => Some(if shifted { '*' } else { '8' }),
        KeyCode::Num9 => Some(if shifted { '(' } else { '9' }),
        KeyCode::Num0 => Some(if shifted { ')' } else { '0' }),
        KeyCode::Grave => Some(if shifted { '~' } else { '`' }),
        KeyCode::Minus => Some(if shifted { '_' } else { '-' }),
        KeyCode::Equals => Some(if shifted { '+' } else { '=' }),
        KeyCode::LeftBracket => Some(if shifted { '{' } else { '[' }),
        KeyCode::RightBracket => Some(if shifted { '}' } else { ']' }),
        KeyCode::Backslash => Some(if shifted { '|' } else { '\\' }),
        KeyCode::Semicolon => Some(if shifted { ':' } else { ';' }),
        KeyCode::Apostrophe => Some(if shifted { '"' } else { '\'' }),
        KeyCode::Comma => Some(if shifted { '<' } else { ',' }),
        KeyCode::Dot => Some(if shifted { '>' } else { '.' }),
        KeyCode::Slash => Some(if shifted { '?' } else { '/' }),
        KeyCode::Space => Some(' '),
        KeyCode::Tab => Some('\t'),
        KeyCode::Enter => Some('\n'),
        KeyCode::Backspace => Some('\x08'),
        _ => None,
    }
}

/// The byte at `index` of the Pause key's eight-byte sequence.
pub open spec fn pause_byte(index: int) -> u8 {
    if index == 0 || index == 3 {
        0xe1
    } else if index == 1 || index == 5 {
        0x14
    } else if index == 2 || index == 7 {
        0x77
    } else {
        0xf0
    }
}

fn pause_sequence_byte(index: u8) -> (r: u8)
    requires
        index < 8,
    ensures
        r == pause_byte(index as int),
{
    if index == 0 || index == 3 {
        0xe1
    } else if index == 1 || index == 5 {
        0x14
    } else if index == 2 || index == 7 {
        0x77
    } else {
        0xf0
    }
}

/// The scan code set 2 decoder: prefixes seen so far and progress through the
/// Pause sequence.
#[derive(Clone, Copy, Debug, PartialEq, Eq, Structural)]
pub struct Parser {
    pub extended: bool,
    pub break_code: bool,
    pub pause_index: u8,
}

/// One step of the decoder: the next state and the key event the byte completes.
pub open spec fn parser_step(p: Parser, byte: u8) -> (Parser, Option<ScanEvent>) {
    if p.pause_index != 0 {
        if byte != pause_byte(p.pause_index as int) {
            (Parser { pause_index: 0, ..p }, None)
        } else if p.pause_index + 1 == 8 {
            (Parser { pause_index: 0, ..p }, Some(ScanEvent { code: KeyCode::Pause, pressed: true }))
        } else {
            (Parser { pause_index: (p.pause_index + 1) as u8, ..p }, None)
        }
    } else if byte == 0xe1 {
        (Parser { pause_index: 1, extended: false, break_code: false }, None)
    } else if byte == 0xe0 {
        (Parser { extended: true, ..p }, None)
    } else if byte == 0xf0 {
        (Parser { break_code: true, ..p }, None)
    } else {
        (
            Parser { extended: false, break_code: false, ..p },
            match spec_map_scan_code(p.extended, byte) {
                Some(code) => Some(ScanEvent { code, pressed: !p.break_code }),
                None => None,
            },
        )
    }
}

impl Parser {
    pub open spec fn wf(&self) -> bool {
        self.pause_index < 8
    }

    pub fn new() -> (r: Self)
        ensures
            r == (Parser { extended: false, break_code: false, pause_index: 0 }),
    {
        Parser { extended: false, break_code: false, pause_index: 0 }
    }

    pub fn feed(&mut self, byte: u8) -> (r: Option<ScanEvent>)
        requires
            old(self).wf(),
        ensures
            final(self).wf(),
            (*final(self), r) == parser_step(*old(self), byte),
    {
        if self.pause_index != 0 {
            let expected = pause_sequence_byte(self.pause_index);
            if byte != expected {
                self.pause_index = 0;
                return None;
            }
            self.pause_index = self.pause_index + 1;
            if self.pause_index == 8 {
                self.pause_index = 0;
                return Some(ScanEvent { code: KeyCode::Pause, pressed: true });
            }
            return None;
        }
        if byte == 0xe1 {
            self.pause_index = 1;
            self.extended = false;
            self.break_code = false;
            return None;
        }
        if byte == 0xe0 {
            self.extended = true;
            return None;
        }
        if byte == 0xf0 {
            self.break_code = true;
            return None;
        }
        let event = match map_scan_code(self.extended, byte) {
            Some(code) => Some(ScanEvent { code, pressed: !self.break_code }),
            None => None,
        };
        self.extended = false;
        self.break_code = false;
        event
    }

    /// A prefix or part of the Pause sequence is waiting for more bytes.
    pub fn pending(self) -> (r: bool)
        ensures
            r == (self.extended || self.break_code || self.pause_index != 0),
    {
        self.extended || self.break_code || self.pause_index != 0
    }
}

/// Lock and modifier keys do not repeat.
pub open spec fn spec_is_repeatable(code: KeyCode) -> bool {
    !(code == KeyCode::CapsLock || code == KeyCode::NumLock || code == KeyCode::ScrollLock || code
        == KeyCode::LeftShift || code == KeyCode::RightShift || code == KeyCode::LeftCtrl || code
        == KeyCode::RightCtrl || code == KeyCode::LeftAlt || code == KeyCode::RightAlt || code
        == KeyCode::LeftGui || code == KeyCode::RightGui)
}

pub fn is_repeatable(code: KeyCode) -> (r: bool)
    ensures
        r == spec_is_repeatable(code),
{
    match code {
        KeyCode::CapsLock | KeyCode::NumLock | KeyCode::ScrollLock | KeyCode::LeftShift
        | KeyCode::RightShift | KeyCode::LeftCtrl | KeyCode::RightCtrl | KeyCode::LeftAlt
        | KeyCode::RightAlt | KeyCode::LeftGui | KeyCode::RightGui => false,
        _ => true,
    }
}

/// The character a pressed key types: letters by layout, upper case when exactly one
/// of Shift and Caps Lock is on; other keys by Shift alone.
pub open spec fn spec_text_for(code: KeyCode, layout: Layout, modifiers: u8) -> Option<char> {
    let shifted = modifiers & Modifiers::SHIFT == Modifiers::SHIFT;
    let caps = modifiers & Modifiers::CAPS_LOCK == Modifiers::CAPS_LOCK;
    match spec_letter_pair(code, layout) {
        Some((lower, upper)) => Some(if shifted != caps { upper } else { lower }),
        None => spec_symbol(code, shifted),
    }
}

pub fn text_for(code: KeyCode, layout: Layout, modifiers: Modifiers) -> (r: Option<char>)
    ensures
        r == spec_text_for(code, layout, modifiers.0),
{
    let shifted = modifiers.contains(Modifiers::SHIFT);
    let caps = modifiers.contains(Modifiers::CAPS_LOCK);
    match letter_pair(code, layout) {
        Some((lower, upper)) => Some(if shifted ^ caps { upper } else { lower }),
        None => symbol(code, shifted),
    }
}

/// The modifier bit a held key sets, if any.
pub open spec fn held_modifier(code: KeyCode) -> u8 {
    if code == KeyCode::LeftShift || code == KeyCode::RightShift {
        Modifiers::SHIFT
    } else if code == KeyCode::LeftCtrl || code == KeyCode::RightCtrl {
        Modifiers::CTRL
    } else if code == KeyCode::LeftAlt || code == KeyCode::RightAlt {
        Modifiers::ALT
    } else if code == KeyCode::LeftGui || code == KeyCode::RightGui {
        Modifiers::GUI
    } else {
        0
    }
}

/// The lock bit a key toggles when pressed, if any.
pub open spec fn lock_modifier(code: KeyCode) -> u8 {
    if code == KeyCode::CapsLock {
        Modifiers::CAPS_LOCK
    } else if code == KeyCode::NumLock {
        Modifiers::NUM_LOCK
    } else if code == KeyCode::ScrollLock {
        Modifiers::SCROLL_LOCK
    } else {
        0
    }
}

/// The modifiers after `code` is pressed.
pub open spec fn pressed_modifiers(bits: u8, code: KeyCode) -> u8 {
    if held_modifier(code) != 0 {
        bits | held_modifier(code)
    } else if lock_modifier(code) != 0 {
        bits ^ lock_modifier(code)
    } else {
        bits
    }
}

/// The modifiers after `code` is released.
pub open spec fn released_modifiers(bits: u8, code: KeyCode) -> u8 {
    if held_modifier(code) != 0 {
        bits & !held_modifier(code)
    } else {
        bits
    }
}

fn modifier_of(code: KeyCode) -> (r: (u8, u8))
    ensures
        r == (held_modifier(code), lock_modifier(code)),
{
    match code {
        KeyCode::LeftShift | KeyCode::RightShift => (Modifiers::SHIFT, 0),
        KeyCode::LeftCtrl | KeyCode::RightCtrl => (Modifiers::CTRL, 0),
        KeyCode::LeftAlt | KeyCode::RightAlt => (Modifiers::ALT, 0),
        KeyCode::LeftGui | KeyCode::RightGui => (Modifiers::GUI, 0),
        KeyCode::CapsLock => (0, Modifiers::CAPS_LOCK),
        KeyCode::NumLock => (0, Modifiers::NUM_LOCK),
        KeyCode::ScrollLock => (0, Modifiers::SCROLL_LOCK),
        _ => (0, 0),
    }
}

/// The keyboard: its decoder, modifiers, layout, repeat policy and held keys.
pub struct KeyboardState {
    pub parser: Parser,
    pub modifiers: Modifiers,
    pub layout: Layout,
    pub repeat: RepeatPolicy,
    pub held: Vec<bool>,
}

pub open spec fn count_held(held: Seq<bool>) -> nat
    decreases held.len(),
{
    if held.len() == 0 {
        0
    } else {
        count_held(held.drop_last()) + (if held.last() {
            1nat
        } else {
            0nat
        })
    }
}

impl KeyboardState {
    pub open spec fn wf(&self) -> bool {
        self.parser.wf() && self.held@.len() == KEY_COUNT
    }

    /// US layout, hardware repeat, nothing held.
    pub fn new() -> (r: Self)
        ensures
            r.wf(),
            r.parser == (Parser { extended: false, break_code: false, pause_index: 0 }),
            r.modifiers.0 == 0,
            r.layout == Layout::Us,
            r.repeat == RepeatPolicy::Hardware,
            forall|i: int| 0 <= i < KEY_COUNT ==> !#[trigger] r.held@[i],
    {
        let mut held: Vec<bool> = Vec::new();
        let mut i: usize = 0;
        while i < KEY_COUNT
            invariant
                i <= KEY_COUNT,
                held@.len() == i,
                forall|j: int| 0 <= j < i ==> !#[trigger] held@[j],
            decreases KEY_COUNT - i,
        {
            held.push(false);
            i = i + 1;
        }
        KeyboardState {
            parser: Parser::new(),
            modifiers: Modifiers::empty(),
            layout: Layout::Us,
            repeat: RepeatPolicy::Hardware,
            held,
        }
    }

    /// Decodes one byte into a key event: a press of a key not held, a repeat of a
    /// held key that repeats under the policy, or a release of a held key.
    pub fn feed(&mut self, byte: u8) -> (r: Option<KeyEvent>)
        requires
            old(self).wf(),
        ensures
            final(self).wf(),
            final(self).parser == parser_step(old(self).parser, byte).0,
            final(self).layout == old(self).layout,
            final(self).repeat == old(self).repeat,
            ({
                let scan = parser_step(old(self).parser, byte).1;
                match scan {
                    None => r is None && final(self).held@ == old(self).held@ && final(self).modifiers == old(self).modifiers,
                    Some(event) => {
                        let index = spec_key_index(event.code) as int;
                        let was_held = old(self).held@[index];
                        if event.pressed && was_held && (!spec_is_repeatable(event.code)
                            || old(self).repeat == RepeatPolicy::Disabled) {
                            r is None && final(self).held@ == old(self).held@ && final(self).modifiers == old(self).modifiers
                        } else if !event.pressed && !was_held {
                            r is None && final(self).held@ == old(self).held@ && final(self).modifiers == old(self).modifiers
                        } else {
                            let bits = if event.pressed {
                                if was_held {
                                    old(self).modifiers.0
                                } else {
                                    pressed_modifiers(old(self).modifiers.0, event.code)
                                }
                            } else {
                                released_modifiers(old(self).modifiers.0, event.code)
                            };
                            &&& final(self).held@ == old(self).held@.update(index, event.pressed)
                            &&& final(self).modifiers.0 == bits
                            &&& r == Some(
                                KeyEvent {
                                    code: event.code,
                                    pressed: event.pressed,
                                    repeat: event.pressed && was_held,
                                    modifiers: Modifiers(bits),
                                    text: if event.pressed {
                                        spec_text_for(event.code, old(self).layout, bits)
                                    } else {
                                        None
                                    },
                                },
                            )
                        }
                    },
                }
            }),
    {
        let scan = match self.parser.feed(byte) {
            Some(scan) => scan,
            None => return None,
        };
        let code = scan.code;
        let pressed = scan.pressed;
        let index = code.index();
        let was_held = self.held[index];
        let (hold_bit, lock_bit) = modifier_of(code);
        if pressed {
            if was_held && (!is_repeatable(code) || self.repeat == RepeatPolicy::Disabled) {
                return None;
            }
            if !was_held {
                self.held.set(index, true);
                if hold_bit != 0 {
                    self.modifiers = Modifiers::from_bits(self.modifiers.bits() | hold_bit);
                } else if lock_bit != 0 {
                    self.modifiers = Modifiers::from_bits(self.modifiers.bits() ^ lock_bit);
                }
            }
        } else {
            if !was_held {
                return None;
            }
            self.held.set(index, false);
            if hold_bit != 0 {
                self.modifiers = Modifiers::from_bits(self.modifiers.bits() & !hold_bit);
            }
        }
        let modifiers = self.modifiers;
        let text = if pressed {
            text_for(code, self.layout, modifiers)
        } else {
            None
        };
        Some(KeyEvent { code, pressed, repeat: pressed && was_held, modifiers, text })
    }

    pub fn set_layout(&mut self, layout: Layout)
        ensures
            final(self).layout == layout,
            final(self).parser == old(self).parser && final(self).modifiers == old(self).modifiers
                && final(self).repeat == old(self).repeat && final(self).held == old(self).held,
    {
        self.layout = layout;
    }

    pub fn set_repeat_policy(&mut self, policy: RepeatPolicy)
        ensures
            final(self).repeat == policy,
            final(self).parser == old(self).parser && final(self).modifiers == old(self).modifiers
                && final(self).layout == old(self).layout && final(self).held == old(self).held,
    {
        self.repeat = policy;
    }

    /// The keyboard's status; `events_dropped` is what the input queue dropped.
    pub fn status(&self, events_dropped: u64) -> (r: Status)
        ensures
            r == (Status {
                layout: self.layout,
                repeat: self.repeat,
                held: count_held(self.held@) as usize,
                parser_pending: self.parser.extended || self.parser.break_code
                    || self.parser.pause_index != 0,
                events_dropped,
            }),
    {
        let mut held: usize = 0;
        let mut i: usize = 0;
        while i < self.held.len()
            invariant
                i <= self.held@.len(),
                held == count_held(self.held@.take(i as int)),
                held <= i,
            decreases self.held@.len() - i,
        {
            assert(self.held@.take(i + 1).drop_last() == self.held@.take(i as int));
            if self.held[i] {
                held = held + 1;
            }
            i = i + 1;
        }
        assert(self.held@.take(i as int) == self.held@);
        Status {
            layout: self.layout,
            repeat: self.repeat,
            held,
            parser_pending: self.parser.pending(),
            events_dropped,
        }
    }

    /// Decodes up to `POLL_LIMIT` bytes waiting at the controller's keyboard port and
    /// queues the key events they complete.
    pub fn poll(&mut self, controller: &mut Controller, input: &mut InputQueue)
        requires
            old(self).wf(),
        ensures
            final(self).wf(),
            final(self).layout == old(self).layout,
            final(self).repeat == old(self).repeat,
            final(controller).mouse == old(controller).mouse,
            final(controller).keyboard@.len() == old(controller).keyboard@.len() - (if old(controller).keyboard@.len() < POLL_LIMIT {
                old(controller).keyboard@.len() as int
            } else {
                POLL_LIMIT as int
            }),
    {
        let mut count: usize = 0;
        while count < POLL_LIMIT
            invariant
                self.wf(),
                self.layout == old(self).layout,
                self.repeat == old(self).repeat,
                controller.mouse == old(controller).mouse,
                count <= POLL_LIMIT,
                count <= old(controller).keyboard@.len(),
                controller.keyboard@.len() == old(controller).keyboard@.len() - count,
            ensures
                self.wf(),
                self.layout == old(self).layout,
                self.repeat == old(self).repeat,
                controller.mouse == old(controller).mouse,
                controller.keyboard@.len() == old(controller).keyboard@.len() - count,
                count == POLL_LIMIT || controller.keyboard@.len() == 0,
                count <= POLL_LIMIT,
            decreases POLL_LIMIT - count,
        {
            let byte = match controller.pop_keyboard() {
                Some(byte) => byte,
                None => break,
            };
            match self.feed(byte) {
                Some(event) => {
                    input.push(Event::Key(event));
                },
                None => {},
            }
            count = count + 1;
        }
    }
}

/// Checks the decoder on make, break, extended and Pause sequences, and the
/// keyboard on letters, Shift, the Russian layout and the repeat policy.
pub fn contract_self_check() {
    let mut parser = Parser::new();
    let make = parser.feed(0x1c);
    assert(make == Some(ScanEvent { code: KeyCode::A, pressed: true }));
    let prefix = parser.feed(0xf0);
    assert(prefix is None);
    let break_event = parser.feed(0x1c);
    assert(break_event == Some(ScanEvent { code: KeyCode::A, pressed: false }));
    let prefix = parser.feed(0xe0);
    assert(prefix is None);
    let arrow = parser.feed(0x75);
    assert(arrow == Some(ScanEvent { code: KeyCode::ArrowUp, pressed: true }));
    let mut pause = Parser::new();
    let e0 = pause.feed(0xe1);
    let e1 = pause.feed(0x14);
    let e2 = pause.feed(0x77);
    let e3 = pause.feed(0xe1);
    let e4 = pause.feed(0xf0);
    let e5 = pause.feed(0x14);
    let e6 = pause.feed(0xf0);
    let e7 = pause.feed(0x77);
    assert(e0 is None && e1 is None && e2 is None && e3 is None && e4 is None && e5 is None
        && e6 is None);
    assert(e7 == Some(ScanEvent { code: KeyCode::Pause, pressed: true }));
    assert(0u8 & 1u8 == 0u8 && 0u8 & 16u8 == 0u8 && 0u8 | 1u8 == 1u8 && 1u8 & 1u8 == 1u8 && 1u8 & 16u8 == 0u8
        && 1u8 & !1u8 == 0u8) by (bit_vector);
    let mut state = KeyboardState::new();
    assert(!state.held@[0]);
    let lower = state.feed(0x1c);
    assert(lower is Some && lower.unwrap().text == Some('a'));
    let _ = state.feed(0xf0);
    let _ = state.feed(0x1c);
    let _ = state.feed(0x12);
    assert(state.modifiers.0 == 1);
    let upper = state.feed(0x1c);
    assert(upper is Some && upper.unwrap().text == Some('A'));
    let _ = state.feed(0xf0);
    let _ = state.feed(0x1c);
    let _ = state.feed(0xf0);
    let _ = state.feed(0x12);
    assert(state.modifiers.0 == 0);
    state.set_layout(Layout::Ru);
    let russian = state.feed(0x1c);
    assert(russian is Some && russian.unwrap().text == Some('ф'));
    state.set_repeat_policy(RepeatPolicy::Disabled);
    let repeated = state.feed(0x1c);
    assert(repeated is None);
}

/// The scan code set 2 make code of each key that has a one-byte code.
pub open spec fn set2_make_code(code: KeyCode) -> Option<u8> {
    match code {
        KeyCode::F9 => Some(0x01u8),
        KeyCode::F5 => Some(0x03u8),
        KeyCode::F3 => Some(0x04u8),
        KeyCode::F1 => Some(0x05u8),
        KeyCode::F2 => Some(0x06u8),
        KeyCode::F12 => Some(0x07u8),
        KeyCode::F10 => Some(0x09u8),
        KeyCode::F8 => Some(0x0au8),
        KeyCode::F6 => Some(0x0bu8),
        KeyCode::F4 => Some(0x0cu8),
        KeyCode::Tab => Some(0x0du8),
        KeyCode::Grave => Some(0x0eu8),
        KeyCode::LeftAlt => Some(0x11u8),
        KeyCode::LeftShift => Some(0x12u8),
        KeyCode::LeftCtrl => Some(0x14u8),
        KeyCode::Q => Some(0x15u8),
        KeyCode::Num1 => Some(0x16u8),
        KeyCode::Z => Some(0x1au8),
        KeyCode::S => Some(0x1bu8),
        KeyCode::A => Some(0x1cu8),
        KeyCode::W => Some(0x1du8),
        KeyCode::Num2 => Some(0x1eu8),
        KeyCode::C => Some(0x21u8),
        KeyCode::X => Some(0x22u8),
        KeyCode::D => Some(0x23u8),
        KeyCode::E => Some(0x24u8),
        KeyCode::Num4 => Some(0x25u8),
        KeyCode::Num3 => Some(0x26u8),
        KeyCode::Space => Some(0x29u8),
        KeyCode::V => Some(0x2au8),
        KeyCode::F => Some(0x2bu8),
        KeyCode::T => Some(0x2cu8),
        KeyCode::R => Some(0x2du8),
        KeyCode::Num5 => Some(0x2eu8),
        KeyCode::N => Some(0x31u8),
        KeyCode::B => Some(0x32u8),
        KeyCode::H => Some(0x33u8),
        KeyCode::G => Some(0x34u8),
        KeyCode::Y => Some(0x35u8),
        KeyCode::Num6 => Some(0x36u8),
        KeyCode::M => Some(0x3au8),
        KeyCode::J => Some(0x3bu8),
        KeyCode::U => Some(0x3cu8),
        KeyCode::Num7 => Some(0x3du8),
        KeyCode::Num8 => Some(0x3eu8),
        KeyCode::Comma => Some(0x41u8),
        KeyCode::K => Some(0x42u8),
        KeyCode::I => Some(0x43u8),
        KeyCode::O => Some(0x44u8),
        KeyCode::Num0 => Some(0x45u8),
        KeyCode::Num9 => Some(0x46u8),
        KeyCode::Dot => Some(0x49u8),
        KeyCode::Slash => Some(0x4au8),
        KeyCode::L => Some(0x4bu8),
        KeyCode::Semicolon => Some(0x4cu8),
        KeyCode::P => Some(0x4du8),
        KeyCode::Minus => Some(0x4eu8),
        KeyCode::Apostrophe => Some(0x52u8),
        KeyCode::LeftBracket => Some(0x54u8),
        KeyCode::Equals => Some(0x55u8),
        KeyCode::CapsLock => Some(0x58u8),
        KeyCode::RightShift => Some(0x59u8),
        KeyCode::Enter => Some(0x5au8),
        KeyCode::RightBracket => Some(0x5bu8),
        KeyCode::Backslash => Some(0x5du8),
        KeyCode::Backspace => Some(0x66u8),
        KeyCode::Escape => Some(0x76u8),
        KeyCode::NumLock => Some(0x77u8),
        KeyCode::ScrollLock => Some(0x7eu8),
        KeyCode::F11 => Some(0x78u8),
        KeyCode::F7 => Some(0x83u8),
        _ => None,
    }
}

/// The scan code set 2 make code, after the 0xe0 prefix, of each key that has one.
pub open spec fn set2_extended_make_code(code: KeyCode) -> Option<u8> {
    match code {
        KeyCode::RightAlt => Some(0x11u8),
        KeyCode::RightCtrl => Some(0x14u8),
        KeyCode::LeftGui => Some(0x1fu8),
        KeyCode::RightGui => Some(0x27u8),
        KeyCode::KeypadSlash => Some(0x4au8),
        KeyCode::KeypadEnter => Some(0x5au8),
        KeyCode::End => Some(0x69u8),
        KeyCode::ArrowLeft => Some(0x6bu8),
        KeyCode::Home => Some(0x6cu8),
        KeyCode::Insert => Some(0x70u8),
        KeyCode::Delete => Some(0x71u8),
        KeyCode::ArrowDown => Some(0x72u8),
        KeyCode::ArrowRight => Some(0x74u8),
        KeyCode::ArrowUp => Some(0x75u8),
        KeyCode::PageDown => Some(0x7au8),
        KeyCode::PrintScreen => Some(0x7cu8),
        KeyCode::PageUp => Some(0x7du8),
        _ => None,
    }
}

/// Each make code names the key whose code it is in scan code set 2.
proof fn lemma_scan_code_inverse(extended: bool, byte: u8)
    ensures
        !extended ==> (spec_map_scan_code(false, byte) matches Some(code) ==> set2_make_code(code) == Some(byte)),
        extended ==> (spec_map_scan_code(true, byte) matches Some(code) ==> set2_extended_make_code(code) == Some(
            byte,
        )),
{
}

/// `map_scan_code` names each make code's key as scan code set 2 does (0x1c is A, 0x1b
/// is S, 0x23 is D, 0x15 is Q, 0x1a is Z, 0x5a is Enter, 0x76 is Escape; after 0xe0,
/// 0x75 is the up arrow), and in each of the plain and the extended tables no two make
/// codes name the same key.
pub proof fn law_scan_code_table(extended: bool, byte: u8, other: u8)
    ensures
        spec_map_scan_code(false, 0x1c) == Some(KeyCode::A),
        spec_map_scan_code(false, 0x1b) == Some(KeyCode::S),
        spec_map_scan_code(false, 0x23) == Some(KeyCode::D),
        spec_map_scan_code(false, 0x15) == Some(KeyCode::Q),
        spec_map_scan_code(false, 0x1a) == Some(KeyCode::Z),
        spec_map_scan_code(false, 0x5a) == Some(KeyCode::Enter),
        spec_map_scan_code(false, 0x76) == Some(KeyCode::Escape),
        spec_map_scan_code(true, 0x75) == Some(KeyCode::ArrowUp),
        spec_map_scan_code(extended, byte) matches Some(code) ==> (if extended {
            set2_extended_make_code(code)
        } else {
            set2_make_code(code)
        }) == Some(byte),
        spec_map_scan_code(extended, byte) is Some && spec_map_scan_code(extended, byte) == spec_map_scan_code(
            extended,
            other,
        ) ==> byte == other,
{
    lemma_scan_code_inverse(extended, byte);
    lemma_scan_code_inverse(extended, other);
}

} // verus!
