use lib::btrfs::{file_check, fill_from_extent, Error as FsError, Inode};
use lib::drivers::display::InitResult as DisplayInit;
use lib::drivers::framework::{contract_self_check as framework_self_check, matrix_self_check, DeviceState, DriverStage, FixedOutcome, Registry, MAX_DRIVERS, Driver, Class, BusKind};
use lib::drivers::network::{check_buffer_pages, device_ready, device_setup, NetError, NetRegisters, FEATURE_MAC, FEATURE_STATUS};
use lib::drivers::{audio, init, keyboard, mouse, network, ps2, runtime_init, virtio_gpu};

#[test]
fn boot_drivers_are_registered_in_order() {
    let mut registry: Registry<FixedOutcome> = Registry::new();
    assert!(init(
        &mut registry,
        &DisplayInit::Unsupported,
        true,
        ps2::InitResult::Ready,
        keyboard::InitResult::Failed,
        mouse::InitResult::Unsupported,
    ));
    let list = registry.list();
    let names: Vec<&str> = list.iter().map(|s| s.driver.name).collect();
    assert_eq!(names, vec!["serial", "framebuffer", "ramdisk0", "ps2-controller", "ps2-keyboard", "ps2-mouse"]);
    let states: Vec<DeviceState> = list.iter().map(|s| s.state).collect();
    assert_eq!(
        states,
        vec![
            DeviceState::Ready,
            DeviceState::Unsupported,
            DeviceState::Ready,
            DeviceState::Ready,
            DeviceState::Failed,
            DeviceState::Unsupported,
        ]
    );
    assert_eq!(list[0].driver.stage, DriverStage::Early);
    assert_eq!(list[1].driver.stage, DriverStage::Runtime);
}

#[test]
fn boot_drivers_start_the_registry_afresh() {
    let mut registry: Registry<FixedOutcome> = Registry::new();
    for id in 0..(MAX_DRIVERS - 2) {
        assert!(registry.register(Driver::new(100 + id as u16, "filler", Class::Serial, BusKind::Platform), DeviceState::Ready));
    }
    assert!(init(
        &mut registry,
        &DisplayInit::Unsupported,
        false,
        ps2::InitResult::Failed,
        keyboard::InitResult::Failed,
        mouse::InitResult::Failed,
    ));
    let list = registry.list();
    assert_eq!(list.len(), 6);
    assert_eq!(list[0].driver.name, "serial");
    assert_eq!(list[5].driver.name, "ps2-mouse");
}

/// The window of a card with MAC address 10:11:12:13:14:15, its link up, offering the
/// given features and queue sizes.
fn card(features: u32, sizes: [u16; 2]) -> NetRegisters {
    NetRegisters::new(features, vec![0x10, 0x11, 0x12, 0x13, 0x14, 0x15, 1, 0], sizes.to_vec())
}

#[test]
fn network_device_setup() {
    let mut io = card(FEATURE_MAC | FEATURE_STATUS | 1, [256, 256]);
    let setup = device_setup(&mut io).unwrap();
    assert_eq!(setup.features, FEATURE_MAC | FEATURE_STATUS);
    assert_eq!(setup.mac, vec![0x10, 0x11, 0x12, 0x13, 0x14, 0x15]);
    assert!(setup.link_up);
    assert_eq!((setup.rx_size, setup.tx_size), (256, 256));
    assert_eq!(io.status, vec![0, 1, 3]);
    assert!(device_ready(&mut io));
    assert_eq!(io.status, vec![0, 1, 3, 7]);

    let mut lacking = card(FEATURE_MAC, [256, 256]);
    assert_eq!(device_setup(&mut lacking).unwrap_err(), NetError::UnsupportedFeatures);
    assert_eq!(lacking.status, vec![0, 1, 3, 0x80]);

    let mut small = card(FEATURE_MAC | FEATURE_STATUS, [2, 256]);
    assert_eq!(device_setup(&mut small).unwrap_err(), NetError::InvalidQueue);
    let mut odd = card(FEATURE_MAC | FEATURE_STATUS, [256, 3]);
    assert_eq!(device_setup(&mut odd).unwrap_err(), NetError::InvalidQueue);

    assert_eq!(check_buffer_pages(&[0x1000, 0x2000], 0x3000), Ok(()));
    assert_eq!(check_buffer_pages(&[0x1000, 0xffff_ffff_u64 * 4096 + 1], 0x3000), Err(NetError::AddressTooWide));
    assert_eq!(check_buffer_pages(&[], 0x1_0000_0000_0000), Err(NetError::AddressTooWide));
}

#[test]
fn file_checks_and_extent_copies() {
    assert_eq!(file_check(Inode { mode: 0x41ed, size: 0 }, 16), Err(FsError::IsDirectory));
    assert_eq!(file_check(Inode { mode: 0x8000, size: 4 }, 16), Err(FsError::PermissionDenied));
    assert_eq!(file_check(Inode { mode: 0x81a4, size: 17 }, 16), Err(FsError::BufferTooSmall));
    assert_eq!(file_check(Inode { mode: 0x81a4, size: 16 }, 16), Ok(16));

    let mut out = vec![9u8; 6];
    assert_eq!(fill_from_extent(Some(vec![1, 2, 3]), 3, &mut out), Ok(3));
    assert_eq!(out, vec![1, 2, 3, 9, 9, 9]);
    assert_eq!(fill_from_extent(None, 2, &mut out), Err(FsError::UnsupportedFeature));
    assert_eq!(fill_from_extent(None, 0, &mut out), Ok(0));
    assert_eq!(out, vec![1, 2, 3, 9, 9, 9]);
}

#[test]
fn framework_lifecycle_self_check_passes() {
    assert!(framework_self_check());
    let report = matrix_self_check();
    assert_eq!(report.passed, report.scenarios);
}

#[test]
fn runtime_drivers_are_registered_in_order() {
    let mut registry: Registry<FixedOutcome> = Registry::new();
    assert!(runtime_init(
        &mut registry,
        DeviceState::Ready,
        true,
        &virtio_gpu::InitResult::Unsupported,
        &audio::InitResult::Failed(audio::AudioError::CodecUnavailable),
        &network::InitResult::Failed(NetError::Device),
    ));
    let list = registry.list();
    let names: Vec<&str> = list.iter().map(|s| s.driver.name).collect();
    assert_eq!(names, vec!["xhci", "virtio-gpu", "ac97-audio", "virtio-net"]);
    let ids: Vec<u16> = list.iter().map(|s| s.driver.id).collect();
    assert_eq!(ids, vec![7, 10, 8, 9]);
    let states: Vec<DeviceState> = list.iter().map(|s| s.state).collect();
    assert_eq!(states, vec![DeviceState::Ready, DeviceState::Unsupported, DeviceState::Failed, DeviceState::Failed]);
    assert_eq!(list[0].driver.class, Class::UsbHost);
    assert_eq!(list[3].driver.bus, BusKind::Pci);
}

#[test]
fn runtime_init_reports_a_failed_handoff() {
    let mut registry: Registry<FixedOutcome> = Registry::new();
    assert!(!runtime_init(
        &mut registry,
        DeviceState::Ready,
        false,
        &virtio_gpu::InitResult::Unsupported,
        &audio::InitResult::Unsupported,
        &network::InitResult::Unsupported,
    ));
    assert_eq!(registry.list().len(), 4);
    let mut other: Registry<FixedOutcome> = Registry::new();
    assert!(runtime_init(
        &mut other,
        DeviceState::Failed,
        false,
        &virtio_gpu::InitResult::Unsupported,
        &audio::InitResult::Unsupported,
        &network::InitResult::Unsupported,
    ));
}

#[test]
fn runtime_init_stops_when_the_registry_is_full() {
    let mut registry: Registry<FixedOutcome> = Registry::new();
    for id in 0..(MAX_DRIVERS - 1) {
        assert!(registry.register(Driver::new(100 + id as u16, "filler", Class::Serial, BusKind::Platform), DeviceState::Ready));
    }
    assert!(!runtime_init(
        &mut registry,
        DeviceState::Unsupported,
        true,
        &virtio_gpu::InitResult::Unsupported,
        &audio::InitResult::Unsupported,
        &network::InitResult::Unsupported,
    ));
    let list = registry.list();
    assert_eq!(list.len(), MAX_DRIVERS);
    assert_eq!(list[MAX_DRIVERS - 1].driver.name, "xhci");
}
