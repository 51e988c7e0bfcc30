use vstd::prelude::*;

verus! {

/// The keys the input drivers report.
#[derive(Clone, Copy, Debug, PartialEq, Eq, Structural)]
pub enum KeyCode {
    A,
    B,
    C,
    D,
    E,
    F,
    G,
    H,
    I,
    J,
    K,
    L,
    M,
    N,
    O,
    P,
    Q,
    R,
    S,
    T,
    U,
    V,
    W,
    X,
    Y,
    Z,
    Num0,
    Num1,
    Num2,
    Num3,
    Num4,
    Num5,
    Num6,
    Num7,
    Num8,
    Num9,
    F1,
    F2,
    F3,
    F4,
    F5,
    F6,
    F7,
    F8,
    F9,
    F10,
    F11,
    F12,
    Escape,
    Tab,
    CapsLock,
    LeftShift,
    RightShift,
    LeftCtrl,
    RightCtrl,
    LeftAlt,
    RightAlt,
    LeftGui,
    RightGui,
    Space,
    Enter,
    Backspace,
    Grave,
    Minus,
    Equals,
    LeftBracket,
    RightBracket,
    Backslash,
    Semicolon,
    Apostrophe,
    Comma,
    Dot,
    Slash,
    ArrowUp,
    ArrowDown,
    ArrowLeft,
    ArrowRight,
    Home,
    End,
    PageUp,
    PageDown,
    Insert,
    Delete,
    PrintScreen,
    Pause,
    NumLock,
    ScrollLock,
    KeypadSlash,
    KeypadEnter,
}

/// The number of key codes.
pub const KEY_COUNT: usize = 89;

pub open spec fn spec_key_index(code: KeyCode) -> usize {
    match code {
        KeyCode::A => 0,
        KeyCode::B => 1,
        KeyCode::C => 2,
        KeyCode::D => 3,
        KeyCode::E => 4,
        KeyCode::F => 5,
        KeyCode::G => 6,
        KeyCode::H => 7,
        KeyCode::I => 8,
        KeyCode::J => 9,
        KeyCode::K => 10,
        KeyCode::L => 11,
        KeyCode::M => 12,
        KeyCode::N => 13,
        KeyCode::O => 14,
        KeyCode::P => 15,
        KeyCode::Q => 16,
        KeyCode::R => 17,
        KeyCode::S => 18,
        KeyCode::T => 19,
        KeyCode::U => 20,
        KeyCode::V => 21,
        KeyCode::W => 22,
        KeyCode::X => 23,
        KeyCode::Y => 24,
        KeyCode::Z => 25,
        KeyCode::Num0 => 26,
        KeyCode::Num1 => 27,
        KeyCode::Num2 => 28,
        KeyCode::Num3 => 29,
        KeyCode::Num4 => 30,
        KeyCode::Num5 => 31,
        KeyCode::Num6 => 32,
        KeyCode::Num7 => 33,
        KeyCode::Num8 => 34,
        KeyCode::Num9 => 35,
        KeyCode::F1 => 36,
        KeyCode::F2 => 37,
        KeyCode::F3 => 38,
        KeyCode::F4 => 39,
        KeyCode::F5 => 40,
        KeyCode::F6 => 41,
        KeyCode::F7 => 42,
        KeyCode::F8 => 43,
        KeyCode::F9 => 44,
        KeyCode::F10 => 45,
        KeyCode::F11 => 46,
        KeyCode::F12 => 47,
        KeyCode::Escape => 48,
        KeyCode::Tab => 49,
        KeyCode::CapsLock => 50,
        KeyCode::LeftShift => 51,
        KeyCode::RightShift => 52,
        KeyCode::LeftCtrl => 53,
        KeyCode::RightCtrl => 54,
        KeyCode::LeftAlt => 55,
        KeyCode::RightAlt => 56,
        KeyCode::LeftGui => 57,
        KeyCode::RightGui => 58,
        KeyCode::Space => 59,
        KeyCode::Enter => 60,
        KeyCode::Backspace => 61,
        KeyCode::Grave => 62,
        KeyCode::Minus => 63,
        KeyCode::Equals => 64,
        KeyCode::LeftBracket => 65,
        KeyCode::RightBracket => 66,
        KeyCode::Backslash => 67,
        KeyCode::Semicolon => 68,
        KeyCode::Apostrophe => 69,
        KeyCode::Comma => 70,
        KeyCode::Dot => 71,
        KeyCode::Slash => 72,
        KeyCode::ArrowUp => 73,
        KeyCode::ArrowDown => 74,
        KeyCode::ArrowLeft => 75,
        KeyCode::ArrowRight => 76,
        KeyCode::Home => 77,
        KeyCode::End => 78,
        KeyCode::PageUp => 79,
        KeyCode::PageDown => 80,
        KeyCode::Insert => 81,
        KeyCode::Delete => 82,
        KeyCode::PrintScreen => 83,
        KeyCode::Pause => 84,
        KeyCode::NumLock => 85,
        KeyCode::ScrollLock => 86,
        KeyCode::KeypadSlash => 87,
        KeyCode::KeypadEnter => 88,
    }
}

impl KeyCode {
    /// The key's position among all key codes.
    pub fn index(self) -> (r: usize)
        ensures
            r == spec_key_index(self),
            r < KEY_COUNT,
    {
        match self {
            KeyCode::A => 0,
            KeyCode::B => 1,
            KeyCode::C => 2,
            KeyCode::D => 3,
            KeyCode::E => 4,
            KeyCode::F => 5,
            KeyCode::G => 6,
            KeyCode::H => 7,
            KeyCode::I => 8,
            KeyCode::J => 9,
            KeyCode::K => 10,
            KeyCode::L => 11,
            KeyCode::M => 12,
            KeyCode::N => 13,
            KeyCode::O => 14,
            KeyCode::P => 15,
            KeyCode::Q => 16,
            KeyCode::R => 17,
            KeyCode::S => 18,
            KeyCode::T => 19,
            KeyCode::U => 20,
            KeyCode::V => 21,
            KeyCode::W => 22,
            KeyCode::X => 23,
            KeyCode::Y => 24,
            KeyCode::Z => 25,
            KeyCode::Num0 => 26,
            KeyCode::Num1 => 27,
            KeyCode::Num2 => 28,
            KeyCode::Num3 => 29,
            KeyCode::Num4 => 30,
            KeyCode::Num5 => 31,
            KeyCode::Num6 => 32,
            KeyCode::Num7 => 33,
            KeyCode::Num8 => 34,
            KeyCode::Num9 => 35,
            KeyCode::F1 => 36,
            KeyCode::F2 => 37,
            KeyCode::F3 => 38,
            KeyCode::F4 => 39,
            KeyCode::F5 => 40,
            KeyCode::F6 => 41,
            KeyCode::F7 => 42,
            KeyCode::F8 => 43,
            KeyCode::F9 => 44,
            KeyCode::F10 => 45,
            KeyCode::F11 => 46,
            KeyCode::F12 => 47,
            KeyCode::Escape => 48,
            KeyCode::Tab => 49,
            KeyCode::CapsLock => 50,
            KeyCode::LeftShift => 51,
            KeyCode::RightShift => 52,
            KeyCode::LeftCtrl => 53,
            KeyCode::RightCtrl => 54,
            KeyCode::LeftAlt => 55,
            KeyCode::RightAlt => 56,
            KeyCode::LeftGui => 57,
            KeyCode::RightGui => 58,
            KeyCode::Space => 59,
            KeyCode::Enter => 60,
            KeyCode::Backspace => 61,
            KeyCode::Grave => 62,
            KeyCode::Minus => 63,
            KeyCode::Equals => 64,
            KeyCode::LeftBracket => 65,
            KeyCode::RightBracket => 66,
            KeyCode::Backslash => 67,
            KeyCode::Semicolon => 68,
            KeyCode::Apostrophe => 69,
            KeyCode::Comma => 70,
            KeyCode::Dot => 71,
            KeyCode::Slash => 72,
            KeyCode::ArrowUp => 73,
            KeyCode::ArrowDown => 74,
            KeyCode::ArrowLeft => 75,
            KeyCode::ArrowRight => 76,
            KeyCode::Home => 77,
            KeyCode::End => 78,
            KeyCode::PageUp => 79,
            KeyCode::PageDown => 80,
            KeyCode::Insert => 81,
            KeyCode::Delete => 82,
            KeyCode::PrintScreen => 83,
            KeyCode::Pause => 84,
            KeyCode::NumLock => 85,
            KeyCode::ScrollLock => 86,
            KeyCode::KeypadSlash => 87,
            KeyCode::KeypadEnter => 88,
        }
    }
}

/// Distinct keys have distinct indices.
pub proof fn law_key_index_injective(a: KeyCode, b: KeyCode)
    ensures
        spec_key_index(a) == spec_key_index(b) ==> a == b,
{
}

/// The held modifier keys and the lock states, as bits.
#[derive(Clone, Copy, Debug, PartialEq, Eq, Structural)]
pub struct Modifiers(pub u8);

impl Modifiers {
    pub const SHIFT: u8 = 1;
    pub const CTRL: u8 = 2;
    pub const ALT: u8 = 4;
    pub const GUI: u8 = 8;
    pub const CAPS_LOCK: u8 = 16;
    pub const NUM_LOCK: u8 = 32;
    pub const SCROLL_LOCK: u8 = 64;

    pub fn empty() -> (r: Self)
        ensures
            r.0 == 0,
    {
        Modifiers(0)
    }

    pub fn from_bits(bits: u8) -> (r: Self)
        ensures
            r.0 == bits,
    {
        Modifiers(bits)
    }

    pub fn bits(self) -> (r: u8)
        ensures
            r == self.0,
    {
        self.0
    }

    /// Every bit of `mask` is set.
    pub fn contains(self, mask: u8) -> (r: bool)
        ensures
            r == (self.0 & mask == mask),
    {
        self.0 & mask == mask
    }
}

/// The pressed pointer buttons, as bits.
#[derive(Clone, Copy, Debug, PartialEq, Eq, Structural)]
pub struct Buttons(pub u8);

impl Buttons {
    pub const LEFT: u8 = 1;
    pub const RIGHT: u8 = 2;
    pub const MIDDLE: u8 = 4;
    pub const BACK: u8 = 8;
    pub const FORWARD: u8 = 16;

    pub fn empty() -> (r: Self)
        ensures
            r.0 == 0,
    {
        Buttons(0)
    }

    pub fn from_bits(bits: u8) -> (r: Self)
        ensures
            r.0 == bits,
    {
        Buttons(bits)
    }

    pub fn bits(self) -> (r: u8)
        ensures
            r == self.0,
    {
        self.0
    }
}

#[derive(Clone, Copy, Debug, PartialEq, Eq, Structural)]
pub struct KeyEvent {
    pub code: KeyCode,
    pub pressed: bool,
    pub repeat: bool,
    pub modifiers: Modifiers,
    pub text: Option<char>,
}

#[derive(Clone, Copy, Debug, PartialEq, Eq, Structural)]
pub struct PointerEvent {
    pub dx: i16,
    pub dy: i16,
    pub wheel: i8,
    pub buttons: Buttons,
    pub changed: Buttons,
}

#[derive(Clone, Copy, Debug, PartialEq, Eq, Structural)]
pub enum Event {
    Key(KeyEvent),
    Pointer(PointerEvent),
    Connected,
    Disconnected,
}

/// How many events the queue holds before it drops new ones.
pub const QUEUE_CAPACITY: usize = 64;

/// The input events waiting for a reader, oldest first, and how many were dropped
/// because the queue was full.
pub struct InputQueue {
    events: std::collections::VecDeque<Event>,
    dropped: u64,
}

impl InputQueue {
    pub closed spec fn view(&self) -> Seq<Event> {
        self.events@
    }

    pub closed spec fn dropped_spec(&self) -> u64 {
        self.dropped
    }

    pub fn new() -> (r: Self)
        ensures
            r@ == Seq::<Event>::empty(),
            r.dropped_spec() == 0,
    {
        InputQueue { events: std::collections::VecDeque::new(), dropped: 0 }
    }

    /// Appends `event`; when the queue is full the event is dropped and counted.
    pub fn push(&mut self, event: Event) -> (r: bool)
        ensures
            r == (old(self)@.len() < QUEUE_CAPACITY),
            r ==> final(self)@ == old(self)@.push(event) && final(self).dropped_spec() == old(self).dropped_spec(),
            !r ==> final(self)@ == old(self)@ && final(self).dropped_spec() == (if old(self).dropped_spec() == u64::MAX {
                u64::MAX
            } else {
                (old(self).dropped_spec() + 1) as u64
            }),
    {
        if self.events.len() >= QUEUE_CAPACITY {
            self.dropped = self.dropped.saturating_add(1);
            return false;
        }
        self.events.push_back(event);
        true
    }

    /// Takes the oldest event.
    pub fn pop(&mut self) -> (r: Option<Event>)
        ensures
            old(self)@.len() == 0 ==> r is None && final(self)@ == old(self)@,
            old(self)@.len() > 0 ==> r == Some(old(self)@[0]) && final(self)@ == old(self)@.drop_first(),
            final(self).dropped_spec() == old(self).dropped_spec(),
    {
        self.events.pop_front()
    }

    pub fn dropped(&self) -> (r: u64)
        ensures
            r == self.dropped_spec(),
    {
        self.dropped
    }

    /// Empties the queue and clears the drop count.
    pub fn reset(&mut self)
        ensures
            final(self)@ == Seq::<Event>::empty(),
            final(self).dropped_spec() == 0,
    {
        self.events = std::collections::VecDeque::new();
        self.dropped = 0;
    }
}

/// The queue is first in, first out: an event pushed into a queue that has room
/// comes out right away when the queue was empty, and otherwise after the events
/// ahead of it, whose order pushing does not change.
pub proof fn law_queue_fifo(queue: Seq<Event>, event: Event)
    requires
        queue.len() < QUEUE_CAPACITY,
    ensures
        queue.len() == 0 ==> queue.push(event)[0] == event,
        queue.len() > 0 ==> queue.push(event)[0] == queue[0] && queue.push(event).drop_first()
            == queue.drop_first().push(event),
{
    assert(queue.len() > 0 ==> queue.push(event).drop_first() == queue.drop_first().push(event));
}

} // verus!
