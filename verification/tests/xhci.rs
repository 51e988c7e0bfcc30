use lib::drivers::usb::hid::Kind;
use lib::drivers::usb::xhci::{config_total_length, device_descriptor_info, hid_report_length, usb_class_of, 
    contract_self_check, endpoint_context, endpoint_flags, enabled_slot, hotplug_action, kind_name,
    parse_capabilities, parse_configuration, port_offset, port_reset_command, port_reset_outcome,
    read_capabilities, register_layout, slot_context, transferred, ConfigurationInfo, EndpointInfo,
    Event, EventRing, HostControllerKind, HostError, HotplugAction, SerialProtocol, SetupPacket,
    Trb, TrbRing, UsbClass, UsbSpeed, LINK_INDEX, TRB_LINK, TRB_SETUP_STAGE,
};

#[test]
fn xhci_self_check_passes() {
    assert!(contract_self_check());
}

#[test]
fn names() {
    assert_eq!(kind_name(HostControllerKind::Xhci), "xhci");
    assert_eq!(UsbSpeed::SuperPlus.name(), "super-plus");
    assert_eq!(UsbSpeed::Unknown(9).name(), "unknown");
    assert_eq!(UsbClass::Hid(Kind::Mouse).name(), "mouse");
    assert_eq!(UsbClass::Storage.name(), "storage");
    assert_eq!(SerialProtocol::CdcAcm.name(), "cdc-acm");
    assert_eq!(SerialProtocol::Ftdi.name(), "ftdi");
}

#[test]
fn speeds() {
    assert_eq!(UsbSpeed::from_port_status(2 << 10), UsbSpeed::Low);
    assert_eq!(UsbSpeed::from_port_status(4 << 10 | 1), UsbSpeed::Super);
    assert_eq!(UsbSpeed::from_port_status(7 << 10), UsbSpeed::Unknown(7));
    assert_eq!(UsbSpeed::Low.raw(), 2);
    assert_eq!(UsbSpeed::High.max_packet_size(), 64);
    assert_eq!(UsbSpeed::Super.max_packet_size(), 512);
    assert_eq!(UsbSpeed::Unknown(3).max_packet_size(), 8);
}

#[test]
fn capabilities_and_layout() {
    assert_eq!(parse_capabilities(0x0500_0408, 1), Some((8, 4, 5, true)));
    assert_eq!(parse_capabilities(0x0500_0008, 0), None);
    let (length, caps) = read_capabilities(0x20, 0x0500_0408, 4).unwrap();
    assert_eq!((length, caps.slots, caps.ports, caps.context_size, caps.address64), (0x20, 8, 5, 64, false));
    assert!(read_capabilities(0x1f, 0x0500_0408, 0).is_none());
    assert_eq!(register_layout(0x2003, 0x301f), Some((0x2000, 0x3000)));
    assert_eq!(register_layout(0x3ffd, 0), Some((0x3ffc, 0)));
    assert_eq!(register_layout(0x4000, 0), None);
    assert_eq!(register_layout(0, 0x3fc0), None);
    assert_eq!(port_offset(0x20, 4, 2), Some(0x20 + 0x400 + 0x20));
    assert_eq!(port_offset(0x20, 4, 4), None);
}

#[test]
fn port_resets() {
    assert_eq!(port_reset_command(0x00fe_0201), 0x0000_0211);
    assert_eq!(port_reset_outcome(0x11), None);
    assert_eq!(port_reset_outcome(0x0), Some(Err(HostError::InvalidPort)));
    assert_eq!(port_reset_outcome(0x0020_0c01), Some(Ok((UsbSpeed::High, 0x0020_0000))));
    assert_eq!(port_reset_outcome(0x0401), Some(Ok((UsbSpeed::Full, 0))));
}

#[test]
fn trbs_and_setup_packets() {
    let setup = SetupPacket::get_descriptor(0x0100, 18);
    assert_eq!(setup.value(), 0x0012_0000_0100_0680);
    assert!(setup.direction_in());
    assert!(!SetupPacket::set_configuration(1).direction_in());
    let trb = Trb::setup(setup, true);
    assert_eq!(trb.kind(), TRB_SETUP_STAGE);
    assert_eq!(trb.status, 8);
    assert_eq!(trb.control, (2 << 10) | 0x40 | (3 << 16));
    assert_eq!(Trb::normal(0x1_0000_2000, 64), Trb { parameter_low: 0x2000, parameter_high: 1, status: 64, control: (1 << 10) | 0x20 });
    assert_eq!(Trb::link(0x2000).kind(), TRB_LINK);
    assert_eq!(Trb::link_with_cycle(0x2000, true).control & 1, 1);
    assert_eq!(Trb::data(0, 8, true).control, (3 << 10) | 0x1_0000 | 0x10);
    assert_eq!(Trb::status(false).control, (4 << 10) | 0x20);
    assert_eq!(SetupPacket::ftdi_baud_rate(1).value, 0x4138);
    assert_eq!(SetupPacket::cdc_line_coding(2).length, 7);
}

#[test]
fn ring_wraps_with_toggled_cycle() {
    let mut ring = TrbRing::new(0x10_000);
    assert_eq!(ring.next_pointer(), 0x10_001);
    for _ in 0..LINK_INDEX {
        ring.push(Trb::normal(0, 1)).unwrap();
    }
    assert_eq!(ring.enqueue, LINK_INDEX);
    assert_eq!(ring.trbs[0].control & 1, 1);
    ring.push(Trb::normal(0, 2)).unwrap();
    assert_eq!(ring.enqueue, 1);
    assert!(!ring.cycle);
    assert_eq!(ring.trbs[LINK_INDEX].control & 1, 1);
    assert_eq!(ring.trbs[0].control & 1, 0);
    assert_eq!(ring.trbs[0].status, 2);
    ring.reset();
    assert_eq!((ring.enqueue, ring.cycle), (0, true));
    assert_eq!(ring.trbs[LINK_INDEX].kind(), TRB_LINK);
}

#[test]
fn event_ring_consumes_matching_cycle() {
    let mut events = EventRing::new(0x20_000);
    let stale = Trb::new(0, 0, 32 << 10);
    assert_eq!(events.consume(stale), None);
    let fresh = Trb::new(0, (1 << 24) | 5, (32 << 10) | (3 << 16) | (2 << 24) | 1);
    assert_eq!(events.consume(fresh), Some(Event { kind: 32, completion: 1, slot: 2, endpoint: 3, remaining: 5 }));
    assert_eq!(events.dequeue, 1);
    assert_eq!(events.dequeue_pointer(), 0x20_010 | 8);
    assert_eq!(enabled_slot(Event { kind: 33, completion: 1, slot: 0, endpoint: 0, remaining: 0 }), Err(HostError::Completion(1)));
    assert_eq!(enabled_slot(Event { kind: 33, completion: 1, slot: 4, endpoint: 0, remaining: 0 }), Ok(4));
    assert_eq!(transferred(8, 3), 5);
    assert_eq!(transferred(8, 9), 0);
    assert_eq!(hotplug_action(0, 1, true), HotplugAction::Remove);
    assert_eq!(hotplug_action(1, 0, false), HotplugAction::Enumerate);
    assert_eq!(hotplug_action(1, 1, true), HotplugAction::Nothing);
}

fn keyboard_configuration() -> Vec<u8> {
    let mut b = vec![9, 2, 34, 0, 1, 1, 0, 0xa0, 50];
    b.extend_from_slice(&[9, 4, 0, 0, 1, 3, 1, 1, 0]);
    b.extend_from_slice(&[9, 0x21, 0x11, 1, 0, 1, 0x22, 63, 0]);
    b.extend_from_slice(&[7, 5, 0x81, 3, 8, 0, 10]);
    b
}

#[test]
fn configurations_are_parsed() {
    let b = keyboard_configuration();
    let config = parse_configuration(&b, b.len(), 0, 0x1234, 0x5678).unwrap();
    assert_eq!(config.value, 1);
    assert!(config.hid && !config.serial && !config.hub);
    assert_eq!(config.report_length, 63);
    assert_eq!(config.interrupt_in, Some(EndpointInfo { id: 3, max_packet: 8, interval: 10, transfer_type: 7 }));
    assert_eq!(config.serial_protocol, None);
    assert_eq!(endpoint_flags(&config), (1 | 1 << 3, 3));
    assert_eq!(parse_configuration(&b, 8, 0, 0, 0), Err(HostError::Protocol));
    let mut broken = b.clone();
    broken[9] = 1;
    assert_eq!(parse_configuration(&broken, broken.len(), 0, 0, 0), Err(HostError::Protocol));
    let ftdi = parse_configuration(&b, 9, 0, 0x0403, 0x6001).unwrap();
    assert_eq!(ftdi.serial_protocol, Some(SerialProtocol::Ftdi));
    let hub = parse_configuration(&b, 9, 9, 0, 0).unwrap();
    assert!(hub.hub);
}

#[test]
fn contexts() {
    assert_eq!(slot_context(0, UsbSpeed::High, 1), (3 << 20 | 1 << 27, 1 << 16));
    assert_eq!(endpoint_context(32, 3, 0x5001, 8, 7, 10), (32 + 96, 10 << 16, 6 | 7 << 3 | 8 << 16, 0x5001, 8));
    let none = ConfigurationInfo {
        value: 1,
        interrupt_in: None,
        bulk_in: None,
        bulk_out: None,
        hub: false,
        hid: false,
        serial: false,
        serial_protocol: None,
        storage: false,
        interface: 0,
        control_interface: 0,
        report_length: 0,
    };
    assert_eq!(endpoint_flags(&none), (1, 1));
}

#[test]
fn enumeration_descriptor_checks() {
    let mut device = vec![0u8; 18];
    device[1] = 1;
    device[4] = 3;
    device[8] = 0x03;
    device[9] = 0x04;
    device[10] = 0x01;
    device[11] = 0x60;
    assert_eq!(device_descriptor_info(&device, 18), Ok((3, 0x0403, 0x6001)));
    assert_eq!(device_descriptor_info(&device, 11), Err(HostError::Protocol));
    device[1] = 2;
    assert_eq!(device_descriptor_info(&device, 18), Err(HostError::Protocol));

    let mut header = vec![0u8; 9];
    header[1] = 2;
    header[2] = 0x22;
    header[3] = 0x00;
    assert_eq!(config_total_length(&header, 9), Ok(0x22));
    assert_eq!(config_total_length(&header, 8), Err(HostError::Protocol));
    header[2] = 0x01;
    header[3] = 0x10;
    assert_eq!(config_total_length(&header, 9), Err(HostError::Protocol));
    header[2] = 0x00;
    assert_eq!(config_total_length(&header, 9), Ok(4096));
    header[2] = 8;
    header[3] = 0;
    assert_eq!(config_total_length(&header, 9), Err(HostError::Protocol));
    header[2] = 9;
    header[1] = 4;
    assert_eq!(config_total_length(&header, 9), Err(HostError::Protocol));
}

#[test]
fn enumeration_hid_length_and_class() {
    let plain = ConfigurationInfo {
        value: 1,
        interrupt_in: None,
        bulk_in: None,
        bulk_out: None,
        hub: false,
        hid: false,
        serial: true,
        serial_protocol: None,
        storage: true,
        interface: 0,
        control_interface: 0,
        report_length: 0,
    };
    assert_eq!(hid_report_length(&plain), Ok(None));
    assert_eq!(usb_class_of(&plain, None), UsbClass::Storage);
    let serial = ConfigurationInfo { storage: false, ..plain };
    assert_eq!(usb_class_of(&serial, Some(Kind::Keyboard)), UsbClass::Serial);
    let other = ConfigurationInfo { serial: false, ..serial };
    assert_eq!(usb_class_of(&other, None), UsbClass::Other);
    let hid = ConfigurationInfo { hid: true, report_length: 63, ..plain };
    assert_eq!(hid_report_length(&hid), Ok(Some(63)));
    assert_eq!(usb_class_of(&hid, Some(Kind::Mouse)), UsbClass::Hid(Kind::Mouse));
    assert_eq!(usb_class_of(&hid, None), UsbClass::Hid(Kind::Other));
    let empty = ConfigurationInfo { report_length: 0, ..hid };
    assert_eq!(hid_report_length(&empty), Err(HostError::Protocol));
    let large = ConfigurationInfo { report_length: 257, ..hid };
    assert_eq!(hid_report_length(&large), Err(HostError::Protocol));
    let largest = ConfigurationInfo { report_length: 256, ..hid };
    assert_eq!(hid_report_length(&largest), Ok(Some(256)));
}
