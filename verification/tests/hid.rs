use lib::drivers::usb::hid::{
    boot_keyboard_descriptor, boot_mouse_descriptor, contract_self_check, hid_modifiers, key_code,
    key_text, read_bits, signed_bits, signed_value, Device, Error, Kind,
};
use lib::input::{Event, InputQueue, KeyCode, Modifiers};

#[test]
fn hid_self_check_passes() {
    assert!(contract_self_check());
}

#[test]
fn kind_names() {
    assert_eq!(Kind::Keyboard.name(), "keyboard");
    assert_eq!(Kind::Mouse.name(), "mouse");
    assert_eq!(Kind::Other.name(), "other");
}

#[test]
fn sign_extension() {
    assert_eq!(signed_value(255, 1), -1);
    assert_eq!(signed_value(0x8000, 2), -32768);
    assert_eq!(signed_value(0xffff_ff00, 9), -256);
    assert_eq!(signed_value(0x80, 4), 128);
    assert_eq!(signed_bits(255, 8), -1);
    assert_eq!(signed_bits(0x7f, 8), 127);
    assert_eq!(signed_bits(0x10, 5), -16);
    assert_eq!(signed_bits(0xffff_ffff, 32), -1);
    assert_eq!(signed_bits(5, 0), 5);
}

#[test]
fn bits_are_read_low_first() {
    let report = [0b1010_0000u8, 0b0000_0011];
    assert_eq!(read_bits(&report, 5, 3), 0b101);
    assert_eq!(read_bits(&report, 7, 3), 0b111);
    assert_eq!(read_bits(&report, 14, 8), 0);
    assert_eq!(read_bits(&[0xff; 8], 0, 40), 0xffff_ffff);
}

#[test]
fn modifiers_and_keys() {
    assert_eq!(hid_modifiers(0x02), Modifiers::SHIFT);
    assert_eq!(hid_modifiers(0x81), Modifiers::SHIFT | Modifiers::GUI);
    assert_eq!(hid_modifiers(0x14), Modifiers::CTRL | Modifiers::ALT);
    assert_eq!(key_code(0x04), Some(KeyCode::A));
    assert_eq!(key_code(0x45), Some(KeyCode::F12));
    assert_eq!(key_code(0x32), None);
    assert_eq!(key_text(0x04, 0), Some('a'));
    assert_eq!(key_text(0x04, Modifiers::SHIFT), Some('A'));
    assert_eq!(key_text(0x1e, Modifiers::SHIFT), Some('!'));
    assert_eq!(key_text(0x34, Modifiers::SHIFT), Some('"'));
    assert_eq!(key_text(0x28, 0), None);
}

#[test]
fn descriptors_are_refused() {
    assert_eq!(Device::from_descriptor(&[]).err(), Some(Error::InvalidItem));
    assert_eq!(Device::from_descriptor(&[0x85, 0x01]).err(), Some(Error::UnsupportedReportId));
    assert_eq!(Device::from_descriptor(&[0x05]).err(), Some(Error::InvalidItem));
    assert_eq!(Device::from_descriptor(&[0x81, 0x02]).err(), Some(Error::InvalidLayout));
    // A field of 8 bits with only a collection: kind other, one byte reports.
    let d = Device::from_descriptor(&[0x75, 0x08, 0x95, 0x01, 0x81, 0x02]).ok().unwrap();
    assert_eq!((d.kind(), d.report_bytes()), (Kind::Other, 1));
}

#[test]
fn keyboard_reports_press_and_release() {
    let mut device = Device::from_descriptor(&boot_keyboard_descriptor()).ok().unwrap();
    assert_eq!((device.kind(), device.report_bytes()), (Kind::Keyboard, 8));
    let mut input = InputQueue::new();
    device.feed(&[0, 0, 0x05, 0x06, 0, 0, 0, 0], &mut input);
    let first = input.pop();
    assert!(matches!(first, Some(Event::Key(k)) if k.code == KeyCode::B && k.pressed && k.text == Some('b')));
    assert!(matches!(input.pop(), Some(Event::Key(k)) if k.code == KeyCode::C && k.pressed));
    assert!(input.pop().is_none());
    device.feed(&[0, 0, 0x06, 0, 0, 0, 0, 0], &mut input);
    assert!(matches!(input.pop(), Some(Event::Key(k)) if k.code == KeyCode::B && !k.pressed && k.text.is_none()));
    assert!(input.pop().is_none());
    // A short report is ignored.
    device.feed(&[0, 0, 0x07], &mut input);
    assert!(input.pop().is_none());
}

#[test]
fn mouse_reports_motion() {
    let mut mouse = Device::from_descriptor(&boot_mouse_descriptor()).ok().unwrap();
    assert_eq!((mouse.kind(), mouse.report_bytes()), (Kind::Mouse, 4));
    let mut input = InputQueue::new();
    mouse.feed(&[1, 1, 0xff, 1], &mut input);
    mouse.feed(&[0, 0x80, 0x7f, 0xff], &mut input);
    match input.pop() {
        Some(Event::Pointer(p)) => assert_eq!((p.dx, p.dy, p.wheel, p.buttons.bits(), p.changed.bits()), (1, -1, 1, 1, 1)),
        _ => panic!("no pointer event"),
    }
    match input.pop() {
        Some(Event::Pointer(p)) => assert_eq!((p.dx, p.dy, p.wheel, p.buttons.bits(), p.changed.bits()), (-128, 127, -1, 0, 1)),
        _ => panic!("no pointer event"),
    }
}
