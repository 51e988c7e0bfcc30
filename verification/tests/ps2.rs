use lib::drivers::ps2::{Controller, InitResult, Port, Ps2Io};
use std::collections::VecDeque;

/// A controller whose devices answer every command: acknowledgement (or `answer` when
/// set), and for identify the keyboard's 0xab or the mouse's 0x00.
struct FakePs2 {
    output: VecDeque<(bool, u8)>,
    config: u8,
    last_command: Option<u8>,
    to_mouse: bool,
    second_port_ok: bool,
    answer: Option<u8>,
    silent: bool,
    device_bytes: Vec<(bool, u8)>,
}

impl FakePs2 {
    fn new() -> Self {
        FakePs2 {
            output: VecDeque::new(),
            config: 0x47,
            last_command: None,
            to_mouse: false,
            second_port_ok: true,
            answer: None,
            silent: false,
            device_bytes: Vec::new(),
        }
    }
}

impl Ps2Io for FakePs2 {
    fn read_status(&mut self) -> u8 {
        match self.output.front() {
            Some((aux, _)) => 1 | if *aux { 0x20 } else { 0 },
            None => 0,
        }
    }

    fn read_data(&mut self) -> Option<u8> {
        Some(self.output.pop_front().map(|(_, b)| b).unwrap_or(0))
    }

    fn write_data(&mut self, value: u8) -> bool {
        if self.last_command == Some(0x60) {
            self.config = value;
            self.last_command = None;
            return true;
        }
        let aux = self.to_mouse;
        self.to_mouse = false;
        self.device_bytes.push((aux, value));
        if self.silent {
            return true;
        }
        self.output.push_back((aux, self.answer.unwrap_or(0xfa)));
        if value == 0xf2 && self.answer.is_none() {
            self.output.push_back((aux, if aux { 0x00 } else { 0xab }));
        }
        true
    }

    fn write_command(&mut self, value: u8) -> bool {
        self.last_command = Some(value);
        match value {
            0x20 => self.output.push_back((false, self.config)),
            0xaa => self.output.push_back((false, 0x55)),
            0xab => self.output.push_back((false, 0x00)),
            0xa9 => self.output.push_back((false, if self.second_port_ok { 0x00 } else { 0x01 })),
            0xd4 => self.to_mouse = true,
            _ => {}
        }
        true
    }
}

#[test]
fn ps2_initialise_and_enable_interrupts() {
    let mut controller = Controller::new();
    assert!(controller.enable_interrupts(&mut FakePs2::new()));
    assert!(!controller.irq_enabled);

    let mut io = FakePs2::new();
    assert_eq!(controller.init(&mut io), InitResult::Ready);
    assert!(controller.controller && controller.keyboard_port && controller.mouse_port);
    assert_eq!(controller.config, 0x04);
    assert_eq!(io.config, 0x04);
    assert!(controller.enable_interrupts(&mut io));
    assert!(controller.irq_enabled);
    assert_eq!(controller.config, 0x07);
    assert_eq!(io.config, 0x07);
}

#[test]
fn ps2_device_commands() {
    let mut controller = Controller::new();
    let mut io = FakePs2::new();
    assert_eq!(controller.init(&mut io), InitResult::Ready);
    assert_eq!(controller.send_device_command(&mut io, Port::Keyboard, 0xf4), Ok(()));
    assert_eq!(controller.send_device_data(&mut io, Port::Keyboard, 0xed, 0x02), Ok(()));
    assert_eq!(controller.send_device_command(&mut io, Port::Mouse, 0xf4), Ok(()));
    assert_eq!(controller.identify_device(&mut io, Port::Keyboard), Ok(0xab));
    assert_eq!(controller.identify_device(&mut io, Port::Mouse), Ok(0x00));
    assert_eq!(
        io.device_bytes,
        vec![(false, 0xf4), (false, 0xed), (false, 0x02), (true, 0xf4), (false, 0xf2), (true, 0xf2)]
    );

    io.answer = Some(0x00);
    assert_eq!(controller.send_device_command(&mut io, Port::Keyboard, 0xf4), Err("ps/2 unexpected response"));
    assert_eq!(controller.identify_device(&mut io, Port::Keyboard), Err("ps/2 identify response error"));
    io.answer = Some(0xfe);
    assert_eq!(controller.send_device_command(&mut io, Port::Keyboard, 0xf4), Err("ps/2 command resend limit"));
    io.answer = None;
    io.silent = true;
    assert_eq!(controller.send_device_command(&mut io, Port::Keyboard, 0xf4), Err("ps/2 command timeout"));
    assert_eq!(controller.identify_device(&mut io, Port::Mouse), Err("ps/2 identify timeout"));
}

#[test]
fn ps2_unavailable_port() {
    let mut controller = Controller::new();
    let mut io = FakePs2::new();
    io.second_port_ok = false;
    assert_eq!(controller.init(&mut io), InitResult::Ready);
    assert!(controller.keyboard_port && !controller.mouse_port);
    assert_eq!(controller.send_device_command(&mut io, Port::Mouse, 0xf4), Err("ps/2 port unavailable"));
    assert_eq!(controller.send_device_data(&mut io, Port::Mouse, 0xf3, 100), Err("ps/2 port unavailable"));
    assert_eq!(controller.identify_device(&mut io, Port::Mouse), Err("ps/2 port unavailable"));
    assert!(controller.enable_interrupts(&mut io));
    assert_eq!(controller.config & 3, 1);
}

#[test]
fn ps2_bytes_for_the_other_port_are_queued() {
    let mut controller = Controller::new();
    let mut io = FakePs2::new();
    assert_eq!(controller.init(&mut io), InitResult::Ready);
    // A mouse byte waiting before a keyboard command is drained to the mouse queue.
    io.output.push_back((true, 0x08));
    assert_eq!(controller.send_device_command(&mut io, Port::Keyboard, 0xf4), Ok(()));
    assert_eq!(controller.pop_mouse(), Some(0x08));
    assert_eq!(controller.pop_keyboard(), None);
}
