use lib::drivers::virtio_blk::{
    capacity_of, check_device_status, check_negotiated_status, choose_queue_size, contract_self_check as blk_self_check,
    descriptor_chain, negotiate, queue_layout, request_header, request_status, validate_used,
    Error, Operation, VIRTIO_BLK_F_FLUSH, VIRTIO_BLK_F_RO, VIRTIO_F_VERSION_1,
};
use lib::drivers::virtio_gpu::{
    check_queue_size, command, contract_self_check as gpu_self_check, display_info,
    expect_ok_nodata, framebuffer_commands, modern_queue_size, next_available, pixel_format,
    plan_framebuffer, queue_layout as gpu_queue_layout, Error as GpuError, CMD_RESOURCE_FLUSH,
    FORMAT_B8G8R8A8_UNORM, FORMAT_R8G8B8A8_UNORM,
};
use lib::boot::{PixelFormat, RawFramebuffer};

#[test]
fn virtio_blk_self_check_runs() {
    blk_self_check();
}

#[test]
fn virtio_gpu_self_check_runs() {
    gpu_self_check();
}

#[test]
fn blk_queue_layout_and_used_entries() {
    assert_eq!(queue_layout(8), Some((128, 4096, 4164)));
    assert_eq!(queue_layout(4), Some((64, 4096, 4132)));
    assert_eq!(queue_layout(16), None);
    assert_eq!(validate_used(2, 0, 513, 513, 8), Err(Error::InvalidUsedCount(2)));
    assert_eq!(validate_used(1, 0, 1, 1, 8), Ok(()));
    assert_eq!(validate_used(1, 0, 512, 513, 8), Err(Error::InvalidUsedLength(512)));
}

#[test]
fn blk_operations() {
    assert_eq!(Operation::Read.request_type(), 0);
    assert_eq!(Operation::Write.request_type(), 1);
    assert_eq!(Operation::Flush.request_type(), 4);
    assert!(Operation::Read.has_data() && !Operation::Flush.has_data());
    assert!(Operation::Read.data_is_writable() && !Operation::Write.data_is_writable());
    assert_eq!(Operation::Read.expected_used_length(), 513);
    assert_eq!(descriptor_chain(Operation::Flush), vec![(16, 1, 1), (1, 2, 0)]);
    assert_eq!(descriptor_chain(Operation::Read), vec![(16, 1, 1), (512, 3, 2), (1, 2, 0)]);
    assert_eq!(descriptor_chain(Operation::Write), vec![(16, 1, 1), (512, 1, 2), (1, 2, 0)]);
    let header = request_header(Operation::Write, 0x0102);
    assert_eq!(header, vec![1, 0, 0, 0, 0, 0, 0, 0, 2, 1, 0, 0, 0, 0, 0, 0]);
}

#[test]
fn blk_negotiation_and_status() {
    assert_eq!(negotiate(0), Err(Error::UnsupportedFeatures));
    assert_eq!(
        negotiate(VIRTIO_F_VERSION_1 | VIRTIO_BLK_F_RO | 0x4000),
        Ok((VIRTIO_BLK_F_RO, true, false))
    );
    assert_eq!(
        negotiate(VIRTIO_F_VERSION_1 | VIRTIO_BLK_F_FLUSH),
        Ok((VIRTIO_BLK_F_FLUSH, false, true))
    );
    assert_eq!(check_device_status(0x0f), Ok(()));
    assert_eq!(check_device_status(0x8f), Err(Error::DeviceState(0x8f)));
    assert_eq!(check_device_status(0x0b), Err(Error::DeviceState(0x0b)));
    assert_eq!(request_status(0), Ok(()));
    assert_eq!(request_status(2), Err(Error::RequestFailed(2)));
    assert_eq!(request_status(9), Err(Error::InvalidRequestStatus(9)));
    assert_eq!(choose_queue_size(256), Ok(8));
    assert_eq!(choose_queue_size(4), Ok(4));
    assert_eq!(choose_queue_size(6), Err(Error::InvalidQueue));
    assert_eq!(capacity_of(1, 5, 1, 1), Some((1 << 32) | 5));
    assert_eq!(capacity_of(1, 5, 1, 2), None);
}

fn framebuffer(width: u32, height: u32, stride: usize, size: usize) -> RawFramebuffer {
    RawFramebuffer { base: 0x8000_0000, size, width, height, stride, bytes_per_pixel: 4, format: PixelFormat::Rgb }
}

#[test]
fn gpu_queues_and_responses() {
    assert_eq!(gpu_queue_layout(8), Some((128, 4096, 4164)));
    assert_eq!(gpu_queue_layout(256), Some((4096, 8192, 8192 + 4 + 2048)));
    assert_eq!(gpu_queue_layout(3), None);
    assert_eq!(check_queue_size(64), Ok(64));
    assert_eq!(check_queue_size(0), Err(GpuError::InvalidQueue));
    assert_eq!(modern_queue_size(1), Err(GpuError::InvalidQueue));
    assert_eq!(modern_queue_size(1024), Ok(8));
    assert_eq!(next_available(9, 8), (1, 10));
    assert_eq!(next_available(u16::MAX, 8), (7, 0));
    let mut response = vec![0u8; 48];
    response[0..4].copy_from_slice(&0x1101u32.to_le_bytes());
    response[32..36].copy_from_slice(&1024u32.to_le_bytes());
    response[36..40].copy_from_slice(&768u32.to_le_bytes());
    response[40] = 1;
    assert_eq!(display_info(&response), Ok((1024, 768, true)));
    assert_eq!(expect_ok_nodata(&response), Err(GpuError::InvalidDisplayResponse(0x1101)));
    response[0] = 0;
    assert_eq!(expect_ok_nodata(&response), Ok(()));
    response[1] = 0x12;
    assert_eq!(expect_ok_nodata(&response), Err(GpuError::InvalidDisplayResponse(0x1200)));
}

#[test]
fn gpu_framebuffer_plans() {
    assert_eq!(plan_framebuffer(&framebuffer(800, 600, 3200, 3200 * 600), 1024, 768), Ok((3200 * 600, 800, 600)));
    assert_eq!(plan_framebuffer(&framebuffer(800, 600, 3199, 3200 * 600), 1024, 768), Err(GpuError::UnsupportedFeatures));
    assert_eq!(plan_framebuffer(&framebuffer(800, 600, 3200, 100), 1024, 768), Err(GpuError::UnsupportedFeatures));
    assert_eq!(plan_framebuffer(&framebuffer(800, 600, 3200, 3200 * 600), 640, 480), Err(GpuError::ModeMismatch));
    assert_eq!(pixel_format(PixelFormat::Rgb), FORMAT_R8G8B8A8_UNORM);
    assert_eq!(pixel_format(PixelFormat::Bgr), FORMAT_B8G8R8A8_UNORM);
    let fb = framebuffer(800, 600, 3200, 3200 * 600);
    let commands = framebuffer_commands(&fb, 3200 * 600, 800, 600);
    assert_eq!(commands.len(), 5);
    assert_eq!(&commands[0][0..4], &0x0101u32.to_le_bytes());
    assert_eq!(&commands[0][28..32], &FORMAT_R8G8B8A8_UNORM.to_le_bytes());
    assert_eq!(&commands[1][32..40], &0x8000_0000u64.to_le_bytes());
    assert_eq!(&commands[4][0..4], &CMD_RESOURCE_FLUSH.to_le_bytes());
    assert_eq!(command(7).len(), 64);
}

#[test]
fn negotiated_status_is_checked() {
    assert_eq!(check_negotiated_status(0x0b), Ok(()));
    assert_eq!(check_negotiated_status(0x03), Err(Error::FeaturesRejected));
    assert_eq!(check_negotiated_status(0x8b), Err(Error::DeviceState(0x8b)));
    assert_eq!(check_negotiated_status(0x4b), Err(Error::DeviceState(0x4b)));
}

use lib::drivers::virtio_blk::{init_start, init_step, BroughtUp, InitAction, InitEvent, InitPhase};

/// A device that answers every register access of the initialization: its status,
/// feature words, capacity, queue count and queue size.
struct ScriptedDevice {
    status: u8,
    features: u64,
    keep_features_ok: bool,
    capacity: u64,
    queues: u16,
    queue_size: u16,
    selected: u32,
    writes: Vec<InitAction>,
}

impl ScriptedDevice {
    fn answer(&mut self, action: InitAction) -> InitEvent {
        self.writes.push(action);
        match action {
            InitAction::WriteStatus(status) => {
                self.status = if self.keep_features_ok { status } else { status & !8 };
                InitEvent::Written(true)
            }
            InitAction::ReadStatus => InitEvent::Read8(Some(self.status)),
            InitAction::SelectDeviceFeatures(word) => {
                self.selected = word;
                InitEvent::Written(true)
            }
            InitAction::ReadDeviceFeatures => InitEvent::Read32(Some((self.features >> (32 * self.selected)) as u32)),
            InitAction::SelectDriverFeatures(_) | InitAction::WriteDriverFeatures(_) => InitEvent::Written(true),
            InitAction::ReadCapacity => InitEvent::Capacity(Ok(self.capacity)),
            InitAction::ReadQueueCount => InitEvent::Read16(Some(self.queues)),
            InitAction::SelectQueue(_) => InitEvent::Written(true),
            InitAction::ReadQueueSize => InitEvent::Read16(Some(self.queue_size)),
            InitAction::CreateQueue(_) => InitEvent::QueueCreated(Ok(())),
            InitAction::Done(_) => panic!("the initialization has ended"),
        }
    }
}

fn bring_up(device: &mut ScriptedDevice) -> Result<BroughtUp, Error> {
    let (mut phase, mut action) = init_start();
    for _ in 0..64 {
        if let InitAction::Done(result) = action {
            return result;
        }
        let event = device.answer(action);
        let next = init_step(phase, event);
        phase = next.0;
        action = next.1;
    }
    panic!("the initialization did not end");
}

fn scripted(features: u64) -> ScriptedDevice {
    ScriptedDevice {
        status: 0,
        features,
        keep_features_ok: true,
        capacity: 2048,
        queues: 1,
        queue_size: 256,
        selected: 0,
        writes: Vec::new(),
    }
}

#[test]
fn virtio_blk_init_brings_a_device_up() {
    let mut device = scripted(VIRTIO_F_VERSION_1 | VIRTIO_BLK_F_FLUSH);
    let result = bring_up(&mut device).unwrap();
    assert_eq!(result, BroughtUp { capacity: 2048, read_only: false, flush: true, queue_size: 8, device_status: 15 });
    assert_eq!(device.writes[0], InitAction::WriteStatus(0));
    assert!(device.writes.contains(&InitAction::WriteDriverFeatures(VIRTIO_BLK_F_FLUSH as u32)));
    assert!(device.writes.contains(&InitAction::WriteDriverFeatures(1)));
    assert!(device.writes.contains(&InitAction::CreateQueue(8)));
    let driver_ok = device.writes.iter().position(|a| *a == InitAction::WriteStatus(15)).unwrap();
    let features_ok = device.writes.iter().position(|a| *a == InitAction::WriteStatus(11)).unwrap();
    assert!(features_ok < driver_ok);
}

#[test]
fn virtio_blk_init_refusals() {
    assert_eq!(bring_up(&mut scripted(VIRTIO_BLK_F_RO)), Err(Error::UnsupportedFeatures));
    let mut rejecting = scripted(VIRTIO_F_VERSION_1);
    rejecting.keep_features_ok = false;
    assert_eq!(bring_up(&mut rejecting), Err(Error::FeaturesRejected));
    assert!(!rejecting.writes.iter().any(|a| matches!(a, InitAction::WriteStatus(s) if s & 4 != 0)));
    let mut empty = scripted(VIRTIO_F_VERSION_1);
    empty.capacity = 0;
    assert_eq!(bring_up(&mut empty), Err(Error::InvalidCapacity));
    let mut no_queue = scripted(VIRTIO_F_VERSION_1);
    no_queue.queues = 0;
    assert_eq!(bring_up(&mut no_queue), Err(Error::InvalidQueue));
    let mut tiny = scripted(VIRTIO_F_VERSION_1);
    tiny.queue_size = 2;
    assert_eq!(bring_up(&mut tiny), Err(Error::InvalidQueue));
    assert_eq!(
        init_step(InitPhase::ResetWritten, InitEvent::Written(false)),
        (InitPhase::Finished, InitAction::Done(Err(Error::Device)))
    );
    assert_eq!(
        init_step(InitPhase::ResetRead, InitEvent::Read8(Some(1))),
        (InitPhase::Finished, InitAction::Done(Err(Error::Device)))
    );
    assert_eq!(
        init_step(InitPhase::Finished, InitEvent::Written(true)),
        (InitPhase::Finished, InitAction::Done(Err(Error::NotReady)))
    );
}
