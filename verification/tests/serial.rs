use lib::drivers::serial::ns16550::{self, PortBank};
use lib::drivers::serial::pl011::{self, RegisterWindow};
use lib::drivers::serial::{
    failure_reason_code, transmit_bytes, FailureReason, FlowControl, Serial, SerialConfig, SerialLine,
    SerialStatus,
};

struct Line {
    sent: Vec<u8>,
    accept: usize,
    incoming: Option<u8>,
}

impl SerialLine for Line {
    fn write_byte(&mut self, byte: u8) -> bool {
        if self.accept == 0 {
            return false;
        }
        self.accept -= 1;
        self.sent.push(byte);
        true
    }

    fn read_byte(&mut self) -> Option<u8> {
        self.incoming
    }
}

#[test]
fn serial_failure_reasons() {
    assert_eq!(failure_reason_code(0), None);
    assert_eq!(failure_reason_code(1), Some(FailureReason::Init));
    assert_eq!(failure_reason_code(2), Some(FailureReason::TxTimeout));
    assert_eq!(FailureReason::Init.name(), "init");
    assert_eq!(FailureReason::TxTimeout.name(), "tx-timeout");
    assert_eq!(FailureReason::TxTimeout.code(), 2);
    let mut status = SerialStatus::new();
    assert!(status.available());
    status.mark_failed(FailureReason::Init);
    status.mark_failed(FailureReason::TxTimeout);
    assert!(!status.available());
    assert_eq!(status.failure_reason(), Some(FailureReason::Init));
}

#[test]
fn serial_console_writes() {
    assert_eq!(transmit_bytes(b"a\nb"), b"a\r\nb".to_vec());
    let mut serial = Serial::new();
    let mut line = Line { sent: Vec::new(), accept: 100, incoming: Some(b'x') };
    assert!(serial.write_str(&mut line, "ok\n"));
    assert!(serial.write_bytes(&mut line, b"\n"));
    assert_eq!(line.sent, b"ok\r\n\r\n".to_vec());
    assert_eq!(serial.read(&mut line), Some(b'x'));

    line.accept = 1;
    assert!(!serial.write_str(&mut line, "a\n"));
    assert!(serial.status.failed);
    assert_eq!(serial.status.failure_reason(), Some(FailureReason::TxTimeout));
    line.accept = 100;
    assert!(!serial.write_str(&mut line, "more"));
    assert_eq!(serial.read(&mut line), None);
    assert_eq!(line.sent, b"ok\r\n\r\na".to_vec());
}

/// The ports of a UART at `base`: writes land in them, and the line status always reads
/// transmitter empty with a byte waiting, the byte being `z`.
fn uart_ports(base: u16) -> PortBank {
    let mut bank = PortBank::new();
    bank.answer(base + 5, Some(0x21));
    bank.answer(base, Some(b'z'));
    bank
}

#[test]
fn ns16550_port_io() {
    let mut uart = uart_ports(0x3f8);
    assert!(ns16550::init_port_io(&mut uart, 0x3f8));
    assert_eq!(
        uart.writes,
        vec![(0x3f9, 0), (0x3fb, 0x80), (0x3f8, 1), (0x3f9, 0), (0x3fb, 3), (0x3fa, 0xc7), (0x3fc, 0x0b), (0x3ff, 0xa5)]
    );
    assert!(ns16550::tx_ready_port_io(&mut uart, 0x3f8));
    assert!(ns16550::write_port_io(&mut uart, 0x3f8, b'h'));
    assert_eq!(uart.writes.last(), Some(&(0x3f8, b'h')));
    assert_eq!(ns16550::read_port_io(&mut uart, 0x3f8), Some(b'z'));
    assert!(!ns16550::init_port_io(&mut uart, 0xfffc));

    let mut missing = uart_ports(0x2f8);
    missing.answer(0x2ff, Some(0xff));
    assert!(!ns16550::init_port_io(&mut missing, 0x2f8));
    let port = ns16550::Port::new(0x2f8, SerialConfig::new(0, 115_200, true, FlowControl::Disabled)).unwrap();
    assert!(!port.init(&mut missing));
}

#[test]
fn pl011_registers() {
    let mut uart = RegisterWindow::new();
    uart.answer(pl011::FR, Some(0));
    uart.answer(pl011::DR, Some(u32::from(b'q')));
    assert!(pl011::init(&mut uart));
    assert_eq!(uart.writes, vec![(0x30, 0), (0x44, 0x7ff), (0x24, 13), (0x28, 1), (0x2c, 0x70), (0x38, 0), (0x30, 0x301)]);
    uart.writes.clear();
    assert!(pl011::init_with_config(&mut uart, SerialConfig::new(24_000_000, 115_200, false, FlowControl::RtsCts)));
    assert_eq!(uart.writes.last(), Some(&(0x30, 0xc301)));
    assert!(!pl011::init_with_config(&mut uart, SerialConfig::new(24_000_000, 0, true, FlowControl::Disabled)));
    assert!(pl011::write(&mut uart, b'k'));
    assert_eq!(uart.writes.last(), Some(&(0x00, u32::from(b'k'))));
    assert_eq!(pl011::read(&mut uart), Some(b'q'));
    uart.answer(pl011::FR, Some(0x10));
    assert_eq!(pl011::read(&mut uart), None);
    uart.answer(pl011::FR, None);
    assert!(!pl011::write(&mut uart, b'k'));
}

#[test]
fn pl011_waits_for_room_and_reads_only_when_a_byte_waits() {
    let mut uart = RegisterWindow::new();
    uart.answer(pl011::FR, Some(0x20));
    assert!(!pl011::write(&mut uart, b'x'));
    assert!(uart.writes.is_empty());
    uart.answer(pl011::FR, Some(0x10));
    assert!(pl011::write(&mut uart, b'x'));
    assert_eq!(uart.writes, vec![(pl011::DR, u32::from(b'x'))]);
    assert_eq!(pl011::read(&mut uart), None);
    uart.answer(pl011::FR, Some(0));
    uart.answer(pl011::DR, Some(0x1_41));
    assert_eq!(pl011::read(&mut uart), Some(0x41));
    uart.answer(pl011::DR, None);
    assert_eq!(pl011::read(&mut uart), None);
}

#[test]
fn ns16550_reads_only_when_a_byte_waits() {
    let mut bank = PortBank::new();
    bank.answer(0x3fd, Some(0x20));
    assert_eq!(ns16550::read_port_io(&mut bank, 0x3f8), None);
    bank.answer(0x3fd, None);
    assert_eq!(ns16550::read_port_io(&mut bank, 0x3f8), None);
    assert!(!ns16550::tx_ready_port_io(&mut bank, 0x3f8));
    assert!(!ns16550::write_port_io(&mut bank, 0x3f8, b'a'));
    assert!(bank.writes.is_empty());
    bank.answer(0x3fd, Some(0x01));
    bank.answer(0x3f8, Some(b'k'));
    assert_eq!(ns16550::read_port_io(&mut bank, 0x3f8), Some(b'k'));
}
