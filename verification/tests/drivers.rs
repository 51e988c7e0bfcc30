use lib::boot::{PixelFormat, RawFramebuffer};
use lib::drivers::display::{
    mode_contract, valid_geometry, valid_region, validate_scanout, Cursor, DamageRegion, Display, Error as DisplayError,
    InitResult as DisplayInit, ModePolicy,
};
use lib::drivers::keyboard::{
    is_repeatable, map_scan_code, text_for, KeyboardState, Layout, Parser, RepeatPolicy, ScanEvent,
};
use lib::drivers::mouse::{signed_byte, signed_nibble, Capabilities, MouseState, PacketParser};
use lib::drivers::pci::{
    class_code_matches, config_address, decode_bar, enable_command, find_class, find_class_vendor, Address, Bar,
    ConfigTable, Device,
};
use lib::drivers::ps2::Controller;
use lib::input::{Buttons, Event, InputQueue, KeyCode, Modifiers};

#[test]
fn keyboard_decoding() {
    assert_eq!(map_scan_code(false, 0x1c), Some(KeyCode::A));
    assert_eq!(map_scan_code(false, 0x5a), Some(KeyCode::Enter));
    assert_eq!(map_scan_code(false, 0x00), None);
    let mut parser = Parser::new();
    assert_eq!(parser.feed(0x1c), Some(ScanEvent { code: KeyCode::A, pressed: true }));
    assert_eq!(parser.feed(0xf0), None);
    assert!(parser.pending());
    assert_eq!(parser.feed(0x1c), Some(ScanEvent { code: KeyCode::A, pressed: false }));
    assert!(!parser.pending());
    for byte in [0xe1, 0x14, 0x77, 0xe1, 0xf0, 0x14, 0xf0] {
        assert_eq!(parser.feed(byte), None);
    }
    assert_eq!(parser.feed(0x77), Some(ScanEvent { code: KeyCode::Pause, pressed: true }));
    assert!(!is_repeatable(KeyCode::LeftShift));
    assert!(is_repeatable(KeyCode::A));
    assert_eq!(text_for(KeyCode::A, Layout::Us, Modifiers::empty()), Some('a'));
    assert_eq!(text_for(KeyCode::A, Layout::Us, Modifiers::from_bits(Modifiers::SHIFT)), Some('A'));
    assert_eq!(text_for(KeyCode::A, Layout::Us, Modifiers::from_bits(Modifiers::CAPS_LOCK)), Some('A'));
    assert_eq!(
        text_for(KeyCode::A, Layout::Us, Modifiers::from_bits(Modifiers::SHIFT | Modifiers::CAPS_LOCK)),
        Some('a')
    );
    assert_eq!(text_for(KeyCode::A, Layout::Ru, Modifiers::empty()), Some('ф'));
}

#[test]
fn keyboard_state_and_polling() {
    let mut controller = Controller::new();
    controller.record_init(Ok((0, true, true)));
    for byte in [0x12, 0x1c, 0xf0, 0x1c, 0xf0, 0x12, 0x1c] {
        controller.deliver(0, byte);
    }
    let mut keyboard = KeyboardState::new();
    let mut input = InputQueue::new();
    keyboard.poll(&mut controller, &mut input);
    assert_eq!(controller.pop_keyboard(), None);
    let mut texts = Vec::new();
    while let Some(event) = input.pop() {
        if let Event::Key(key) = event {
            if key.pressed {
                texts.push(key.text);
            }
        }
    }
    assert_eq!(texts, vec![None, Some('A'), Some('a')]);
    let status = keyboard.status(0);
    assert_eq!(status.held, 1);
    assert!(!status.parser_pending);
    keyboard.set_repeat_policy(RepeatPolicy::Disabled);
    assert_eq!(keyboard.feed(0x1c), None);
    keyboard.set_layout(Layout::Ru);
    assert_eq!(keyboard.status(3).layout, Layout::Ru);
}

#[test]
fn mouse_packets() {
    assert_eq!(signed_byte(0xff, true), -1);
    assert_eq!(signed_byte(5, false), 5);
    assert_eq!(signed_nibble(0x0f), -1);
    assert_eq!(signed_nibble(0x07), 7);
    assert_eq!(signed_nibble(0x18), -8);
    assert_eq!(signed_nibble(0x80), -128);
    assert_eq!(signed_nibble(0x27), 0x27);
    assert_eq!(Capabilities::standard().packet_len(), 3);
    let mut parser = PacketParser::new();
    assert_eq!(parser.feed(0x00), None);
    assert_eq!(parser.feed(0x09), None);
    assert_eq!(parser.feed(0x03), None);
    let event = parser.feed(0x02).unwrap();
    assert_eq!((event.dx, event.dy, event.wheel), (3, -2, 0));
    assert_eq!(event.buttons, Buttons::from_bits(Buttons::LEFT));
    assert_eq!(event.changed, Buttons::from_bits(Buttons::LEFT));
    assert_eq!(parser.feed(0x08), None);
    assert_eq!(parser.feed(0x00), None);
    let release = parser.feed(0x00).unwrap();
    assert_eq!(release.changed, Buttons::from_bits(Buttons::LEFT));
    assert_eq!(release.buttons, Buttons::empty());

    let mut controller = Controller::new();
    controller.record_init(Ok((0, true, true)));
    for byte in [0x18, 0xfe, 0x01] {
        controller.deliver(0x20, byte);
    }
    let mut mouse = MouseState::new();
    let mut input = InputQueue::new();
    mouse.poll(&mut controller, &mut input);
    match input.pop() {
        Some(Event::Pointer(pointer)) => assert_eq!((pointer.dx, pointer.dy), (-2, -1)),
        other => panic!("expected a pointer event, got {:?}", other),
    }
}

/// Configuration space with one AHCI controller at slot 3 function 0 and a network card
/// at slot 5 function 1 (function 0 there is an unrelated bridge).
fn config_space() -> ConfigTable {
    let mut config = ConfigTable::new();
    let ahci = Address { bus: 0, slot: 3, function: 0 };
    let bridge = Address { bus: 0, slot: 5, function: 0 };
    let nic = Address { bus: 0, slot: 5, function: 1 };
    for (address, offset, value) in [
        (ahci, 0x00, 0x2922_8086),
        (ahci, 0x08, 0x0106_0102),
        (ahci, 0x04, 0),
        (ahci, 0x24, 0xfebf_1000),
        (ahci, 0x10, 0xc001),
        (ahci, 0x14, 0x0000_0004),
        (ahci, 0x18, 0x0000_0001),
        (ahci, 0x3c, 0x0000_010b),
        (bridge, 0x00, 0x1234_1b36),
        (bridge, 0x08, 0x0604_0000),
        (bridge, 0x0c, 0x0080_0000),
        (nic, 0x00, 0x1000_1af4),
        (nic, 0x08, 0x0200_0000),
    ] {
        config.set(address, offset, value);
    }
    config
}

#[test]
fn pci_lookup_and_bars() {
    let address = Address { bus: 0, slot: 3, function: 0 };
    assert_eq!(config_address(address, 0x11), 0x8000_1810);
    assert!(class_code_matches(0x0106_0102, 0x01_0601));
    assert!(!class_code_matches(0x0106_0202, 0x01_0601));
    assert_eq!(decode_bar(0xc001, None), Some(Bar::Pio(0xc000)));
    assert_eq!(decode_bar(0xfebf_1008, None), Some(Bar::Mmio(0xfebf_1000)));
    assert_eq!(decode_bar(0x4, Some(0x1)), Some(Bar::Mmio(0x1_0000_0000)));
    assert_eq!(decode_bar(0x4, None), None);
    assert_eq!(decode_bar(u32::MAX, None), None);
    assert_eq!(enable_command(0x0400, false, true, true), 0x0406);

    let mut config = config_space();
    let ahci = find_class(&config, 0x01_0601).unwrap();
    assert_eq!((ahci.address, ahci.vendor, ahci.device), (address, 0x8086, 0x2922));
    assert_eq!(ahci.bar(&config, 5), Some(Bar::Mmio(0xfebf_1000)));
    assert_eq!(ahci.bar(&config, 0), Some(Bar::Pio(0xc000)));
    assert_eq!(ahci.bar(&config, 1), Some(Bar::Mmio(0x1_0000_0000)));
    assert_eq!(ahci.bar(&config, 6), None);
    assert_eq!(ahci.irq_line(&config), 11);
    assert!(ahci.enable(&mut config, false, true, true));
    assert_eq!(config.entries.last(), Some(&(address, 0x04, 6)));
    assert_eq!(ahci.read(&config, 0x04), 6);
    let net = find_class_vendor(&config, 0x02_0000, Some(0x1af4)).unwrap();
    assert_eq!((net.address.slot, net.address.function, net.device), (5, 1, 0x1000));
    assert_eq!(find_class_vendor(&config, 0x02_0000, Some(0x8086)), None);
    assert_eq!(find_class(&config, 0x0c_0330), None);
    let device = Device::from_identity(Device { address, vendor: 0, device: 0 }, 0xabcd_1234);
    assert_eq!((device.vendor, device.device), (0x1234, 0xabcd));
}

fn framebuffer() -> RawFramebuffer {
    RawFramebuffer {
        base: 0x8000_0000,
        size: 800 * 600 * 4,
        width: 800,
        height: 600,
        stride: 800 * 4,
        bytes_per_pixel: 4,
        format: PixelFormat::Bgr,
    }
}

#[test]
fn display_modes_damage_and_cursor() {
    assert_eq!(mode_contract().firmware_policy, ModePolicy::FirmwareFixed);
    assert!(valid_geometry(800, 600, 3200, 4, 1_920_000));
    assert!(!valid_geometry(800, 600, 3199, 4, 1_920_000));
    assert!(!valid_geometry(800, 600, 3200, 2, 1_920_000));
    assert!(!valid_geometry(800, 600, 3200, 4, 1_919_999));
    assert!(valid_region(DamageRegion { x: 700, y: 500, width: 100, height: 100 }, 800, 600));
    assert!(!valid_region(DamageRegion { x: 701, y: 500, width: 100, height: 100 }, 800, 600));
    assert!(!valid_region(DamageRegion { x: 0, y: 0, width: 0, height: 1 }, 800, 600));
    assert_eq!(validate_scanout(800, 600, 1024, 768), Some((800, 600)));
    assert_eq!(validate_scanout(800, 600, 640, 768), None);

    let (none, result) = Display::init(None);
    assert_eq!(result, DisplayInit::Unsupported);
    assert_eq!(none.status(), None);
    let (_, bad) = Display::init(Some(RawFramebuffer { stride: 10, ..framebuffer() }));
    assert_eq!(bad, DisplayInit::Failed(DisplayError::InvalidMode));

    let (mut display, result) = Display::init(Some(framebuffer()));
    assert!(matches!(result, DisplayInit::Ready(status) if status.present && status.mode_count == 1));
    let mut modes = Vec::new();
    assert_eq!(display.modes(&mut modes), Err(DisplayError::BufferTooSmall));
    let mut modes = vec![display.set_mode(0).unwrap(); 2];
    assert_eq!(display.modes(&mut modes), Ok(1));
    assert_eq!(modes[0].width, 800);
    assert_eq!(display.set_mode(3), Err(DisplayError::InvalidMode));
    let mut edid = vec![0u8; 128];
    assert_eq!(display.edid(&mut edid), Err(DisplayError::Unsupported));
    assert_eq!(display.queue_damage(DamageRegion { x: 0, y: 0, width: 10, height: 10 }), Ok(()));
    assert_eq!(display.queue_damage(DamageRegion { x: 799, y: 0, width: 2, height: 1 }), Err(DisplayError::InvalidRegion));
    assert_eq!(display.status().unwrap().pending_damage, 1);
    assert_eq!(display.flush(), Ok(1));
    assert_eq!(display.flush(), Ok(0));
    assert_eq!(display.status().unwrap().flushes, 2);
    assert_eq!(display.set_cursor(Cursor { x: 10, y: 10, width: 16, height: 16, visible: true }), Ok(()));
    assert!(display.status().unwrap().cursor_visible);
    assert_eq!(
        display.set_cursor(Cursor { x: 790, y: 10, width: 16, height: 16, visible: true }),
        Err(DisplayError::InvalidRegion)
    );
    for _ in 0..32 {
        display.queue_damage(DamageRegion { x: 0, y: 0, width: 1, height: 1 }).unwrap();
    }
    assert_eq!(display.queue_damage(DamageRegion { x: 0, y: 0, width: 1, height: 1 }), Err(DisplayError::DamageFull));
}

#[test]
fn config_bytes_come_from_their_register_lane() {
    let address = Address { bus: 0, slot: 4, function: 0 };
    let mut config = ConfigTable::new();
    config.set(address, 0x40, 0x4433_2211);
    let device = Device { address, vendor: 0x1af4, device: 0x1001 };
    assert_eq!(lib::drivers::virtio_blk::config_byte(&config, device, 0x40), 0x11);
    assert_eq!(lib::drivers::virtio_blk::config_byte(&config, device, 0x42), 0x33);
    assert_eq!(lib::drivers::virtio_blk::config_byte(&config, device, 0x43), 0x44);
    assert_eq!(lib::drivers::virtio_blk::config_byte(&config, device, 0x44), 0xff);
    assert_eq!(device.irq_line(&config), 0xff);
    config.set(address, 0x3c, 0x0000_0105);
    assert_eq!(device.irq_line(&config), 5);
}
