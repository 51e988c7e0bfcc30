use lib::address::{PhysAddr, VirtAddr};
use lib::drivers::framework::{
    bus_name, class_name, discover, hot_unplug, init, matrix_self_check, probe, probe_error_state, publish, quiesce,
    rebind, remove, resume, stage_name, state_name, suspend, trace_op_name, Bus, BusKind, Class, Device, DeviceState,
    DmaBuffer, DmaDirection, Driver, DriverError, DriverOps, DriverStage, FixedOutcome, Irq, IrqKind, Resource,
    TraceOp, MAX_DEVICES_PER_BUS,
};

fn ops(probe: Result<(), DriverError>) -> DriverOps<FixedOutcome> {
    DriverOps {
        probe: FixedOutcome(probe),
        suspend: Some(FixedOutcome(Ok(()))),
        resume: Some(FixedOutcome(Ok(()))),
        quiesce: Some(FixedOutcome(Ok(()))),
        remove: FixedOutcome(Ok(())),
    }
}

#[test]
fn framework_names_and_matrix() {
    let report = matrix_self_check();
    assert_eq!(report.scenarios, 5);
    assert_eq!(report.passed, 5);
    assert_eq!(class_name(Class::UsbHost), "usb-host");
    assert_eq!(bus_name(BusKind::Virtio), "virtio");
    assert_eq!(stage_name(DriverStage::Early), "early");
    assert_eq!(state_name(DeviceState::Quiescing), "quiescing");
    assert_eq!(trace_op_name(TraceOp::Probe), "probe");
    assert_eq!(probe_error_state(DriverError::Deferred), DeviceState::Deferred);
    assert_eq!(probe_error_state(DriverError::DeviceAbsent), DeviceState::Unsupported);
    assert_eq!(probe_error_state(DriverError::Busy), DeviceState::Busy);
    assert_eq!(probe_error_state(DriverError::Timeout), DeviceState::Failed);
}

#[test]
fn framework_resources_are_checked() {
    let dma = DmaBuffer {
        physical: PhysAddr(0x10_0000),
        virtual_address: VirtAddr(0x10_0000),
        length: 4096,
        alignment: 4096,
        direction: DmaDirection::ToDevice,
        owner: 1,
    };
    assert_eq!(dma.validate(), Ok(()));
    assert_eq!(DmaBuffer { alignment: 3, ..dma }.validate(), Err(DriverError::InvalidAlignment));
    assert_eq!(DmaBuffer { length: 0, ..dma }.validate(), Err(DriverError::InvalidAlignment));
    assert_eq!(
        DmaBuffer { physical: PhysAddr(u64::MAX - 4095), ..dma }.validate(),
        Err(DriverError::InvalidAddressRange)
    );
    assert_eq!(Resource::Pio { base: 0xfff8, size: 8, owner: 1 }.validate(), Ok(()));
    assert_eq!(Resource::Pio { base: 0xfff9, size: 8, owner: 1 }.validate(), Err(DriverError::InvalidResourceRange));
    assert_eq!(Resource::Mmio { base: 1, size: 0, owner: 1 }.validate(), Err(DriverError::InvalidResourceRange));
    assert_eq!(Resource::Irq(Irq { kind: IrqKind::Msi, line: 5, owner: 4 }).owner(), 4);

    let (_, mut trace) = init::<FixedOutcome>();
    let mut device = Device::new(1, 0, BusKind::Pci, "nic", Class::Network);
    assert_eq!(device.add_resource(&mut trace, Resource::Dma(dma)), Ok(()));
    assert_eq!(
        device.add_resource(&mut trace, Resource::Pio { base: 0x3f8, size: 8, owner: 2 }),
        Err(DriverError::ResourceOwnerMismatch)
    );
    assert_eq!(device.resources().len(), 1);
    assert_eq!(
        device.release_resources(&mut trace),
        Err(DriverError::InvalidState { expected: DeviceState::Removed, actual: DeviceState::Discovered })
    );
    assert_eq!(device.resources().len(), 1);
    assert_eq!(device.transition(DeviceState::Probing), Ok(()));
    assert_eq!(device.transition(DeviceState::Failed), Ok(()));
    assert_eq!(device.release_resources(&mut trace), Ok(()));
    assert!(device.resources().is_empty());
}

#[test]
fn framework_lifecycle() {
    let (mut registry, mut trace) = init::<FixedOutcome>();
    let mut bus = Bus::new(0, "pci", BusKind::Pci);
    let mut device = Device::new(7, 0, BusKind::Pci, "disk", Class::Block);
    let driver = Driver::with_ops(3, "ahci", Class::Block, BusKind::Pci, ops(Ok(())));
    let other = Driver::with_ops(4, "ahci-next", Class::Block, BusKind::Pci, ops(Ok(())));
    let wrong = Driver::with_ops(5, "hda", Class::Audio, BusKind::Pci, ops(Ok(())));
    assert!(registry.register(driver, DeviceState::Ready));
    assert_eq!(registry.list().len(), 1);

    assert_eq!(discover(&mut trace, &mut bus, &mut device), Ok(()));
    assert_eq!(bus.devices(), &[7]);
    assert_eq!(probe(&mut trace, &mut device, &wrong), Err(DriverError::NotMatched));
    assert_eq!(publish(&mut trace, &mut device), Err(DriverError::InvalidState {
        expected: DeviceState::Ready,
        actual: DeviceState::Discovered,
    }));
    assert_eq!(probe(&mut trace, &mut device, &driver), Ok(()));
    assert_eq!(device.state, DeviceState::Ready);
    assert_eq!(device.bound_driver(), Some(3));
    assert_eq!(publish(&mut trace, &mut device), Ok(()));
    assert!(device.is_published());
    assert_eq!(suspend(&mut trace, &mut device, &other), Err(DriverError::DriverNotBound));
    assert_eq!(suspend(&mut trace, &mut device, &driver), Ok(()));
    assert_eq!(device.state, DeviceState::Suspended);
    assert_eq!(resume(&mut trace, &mut device, &driver), Ok(()));
    assert_eq!(device.state, DeviceState::Ready);
    assert_eq!(rebind(&mut trace, &mut device, &driver, &other), Ok(()));
    assert_eq!(device.bound_driver(), Some(4));
    assert_eq!(hot_unplug(&mut trace, &mut device, &other), Ok(()));
    assert_eq!(device.state, DeviceState::Removed);
    assert_eq!(device.bound_driver(), None);
    assert!(!device.is_published());
    assert!(trace.events().len() > 5);

    let mut failing = Device::new(8, 0, BusKind::Pci, "bad", Class::Block);
    assert_eq!(discover(&mut trace, &mut bus, &mut failing), Ok(()));
    let deferred = Driver::with_ops(6, "late", Class::Block, BusKind::Pci, ops(Err(DriverError::Deferred)));
    assert_eq!(probe(&mut trace, &mut failing, &deferred), Err(DriverError::Deferred));
    assert_eq!(failing.state, DeviceState::Deferred);
    let plain: Driver<FixedOutcome> = Driver::new(9, "plain", Class::Block, BusKind::Pci);
    let mut unsupported = Device::new(9, 0, BusKind::Pci, "x", Class::Block);
    assert_eq!(probe(&mut trace, &mut unsupported, &plain), Err(DriverError::Unsupported));
    assert_eq!(unsupported.state, DeviceState::Unsupported);
    assert_eq!(quiesce(&mut trace, &mut unsupported, &plain), Err(DriverError::DriverNotBound));
    assert_eq!(remove(&mut trace, &mut unsupported, &plain), Err(DriverError::DriverNotBound));
}

#[test]
fn framework_bus_capacity() {
    let mut bus = Bus::new(1, "platform", BusKind::Platform);
    for id in 0..MAX_DEVICES_PER_BUS as u16 {
        assert_eq!(bus.attach(id), Ok(()));
    }
    assert_eq!(bus.attach(99), Err(DriverError::BusCapacity));
    assert_eq!(bus.devices().len(), MAX_DEVICES_PER_BUS);
}

#[test]
fn suspend_then_resume_gives_the_device_back() {
    let mut trace = lib::drivers::framework::Trace::new();
    let mut bus = Bus::new(1, "pci0", BusKind::Pci);
    let mut device = Device::new(9, 1, BusKind::Pci, "nic", Class::Network);
    let driver = Driver::with_ops(6, "e1000", Class::Network, BusKind::Pci, ops(Ok(())));
    assert_eq!(discover(&mut trace, &mut bus, &mut device), Ok(()));
    assert_eq!(probe(&mut trace, &mut device, &driver), Ok(()));
    assert_eq!(publish(&mut trace, &mut device), Ok(()));
    let resources = device.resources().len();
    assert_eq!(suspend(&mut trace, &mut device, &driver), Ok(()));
    assert_eq!(device.state, DeviceState::Suspended);
    assert_eq!(resume(&mut trace, &mut device, &driver), Ok(()));
    assert_eq!(device.state, DeviceState::Ready);
    assert_eq!(device.bound_driver(), Some(6));
    assert!(device.is_published());
    assert_eq!(device.resources().len(), resources);
    assert_eq!(resume(&mut trace, &mut device, &driver), Err(DriverError::InvalidState {
        expected: DeviceState::Suspended,
        actual: DeviceState::Ready,
    }));
}
