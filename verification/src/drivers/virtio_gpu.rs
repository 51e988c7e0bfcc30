use vstd::prelude::*;
use crate::boot::{PixelFormat, RawFramebuffer};
use crate::bytes::{spec_le_u32, spec_le_u64, le_u32, put_u32, put_u64, zeroes};

verus! {

pub const VIRTIO_GPU_CLASS: u32 = 0x0003_0000;
pub const VIRTIO_VENDOR: u16 = 0x1af4;
pub const PAGE_SIZE: usize = 4096;
pub const MAX_QUEUE_SIZE: u16 = 256;
pub const CONTROL_QUEUE: u16 = 0;
pub const REQUEST_SIZE: usize = 64;
pub const RESPONSE_SIZE: usize = 512;
pub const DESC_NEXT: u16 = 1;
pub const DESC_WRITE: u16 = 2;
pub const VIRTIO_F_VERSION_1: u64 = 0x1_0000_0000;
pub const CMD_GET_DISPLAY_INFO: u32 = 0x0100;
pub const CMD_RESOURCE_CREATE_2D: u32 = 0x0101;
pub const CMD_SET_SCANOUT: u32 = 0x0103;
pub const CMD_RESOURCE_FLUSH: u32 = 0x0104;
pub const CMD_TRANSFER_TO_HOST_2D: u32 = 0x0105;
pub const CMD_RESOURCE_ATTACH_BACKING: u32 = 0x0106;
pub const RESP_OK_NODATA: u32 = 0x1100;
pub const RESP_OK_DISPLAY_INFO: u32 = 0x1101;
pub const RESOURCE_ID: u32 = 1;
pub const FORMAT_B8G8R8A8_UNORM: u32 = 1;
pub const FORMAT_R8G8B8A8_UNORM: u32 = 67;

#[derive(Clone, Copy, Debug, PartialEq, Eq, Structural)]
pub enum Error {
    InvalidPciBar,
    PciCommand,
    Device,
    InvalidQueue,
    DmaUnavailable,
    AddressTooWide,
    Timeout,
    Protocol,
    InvalidCapability,
    InvalidUsedDescriptor,
    InvalidDisplayResponse(u32),
    ModeMismatch,
    UnsupportedFeatures,
}

#[derive(Clone, Copy, Debug, PartialEq, Eq, Structural)]
pub struct Status {
    pub bus: u8,
    pub slot: u8,
    pub function: u8,
    pub vendor: u16,
    pub device: u16,
    pub irq: u8,
    pub control_queue: u16,
    pub scanout_enabled: bool,
    pub scanout_width: u32,
    pub scanout_height: u32,
    pub guest_mode_width: u32,
    pub guest_mode_height: u32,
    pub mode_switch_supported: bool,
    pub two_d: bool,
}

#[derive(Clone, Copy, Debug, PartialEq, Eq, Structural)]
pub enum InitResult {
    Ready(Status),
    Unsupported,
    Failed(Error),
}

/// A power of two up to the queue limit.
pub open spec fn is_queue_power(n: u16) -> bool {
    n == 1 || n == 2 || n == 4 || n == 8 || n == 16 || n == 32 || n == 64 || n == 128 || n == 256
}

fn queue_power(n: u16) -> (r: bool)
    ensures
        r == is_queue_power(n),
{
    n == 1 || n == 2 || n == 4 || n == 8 || n == 16 || n == 32 || n == 64 || n == 128 || n == 256
}

/// The sizes of a split virtqueue of `queue_size` entries: where the available ring
/// starts, where the page-aligned used ring starts, and the total.
pub open spec fn layout_of(queue_size: u16) -> Option<(usize, usize, usize)> {
    if queue_size == 0 || queue_size > MAX_QUEUE_SIZE || !is_queue_power(queue_size) {
        None
    } else {
        let available: int = queue_size * 16;
        let available_end: int = available + 4 + queue_size * 2;
        let page: int = PAGE_SIZE as int;
        let used: int = (available_end + page - 1) / page * page;
        Some((available as usize, used as usize, (used + 4 + queue_size * 8) as usize))
    }
}

pub fn queue_layout(queue_size: u16) -> (r: Option<(usize, usize, usize)>)
    ensures
        r == layout_of(queue_size),
{
    if queue_size == 0 || queue_size > MAX_QUEUE_SIZE || !queue_power(queue_size) {
        return None;
    }
    let available = queue_size as usize * 16;
    let available_end = available + 4 + queue_size as usize * 2;
    let used = (available_end + PAGE_SIZE - 1) / PAGE_SIZE * PAGE_SIZE;
    Some((available, used, used + 4 + queue_size as usize * 8))
}

/// The queue size a legacy device offers, when usable.
pub fn check_queue_size(size: u16) -> (r: Result<u16, Error>)
    ensures
        r == (if size == 0 || size > MAX_QUEUE_SIZE || !is_queue_power(size) {
            Err::<u16, Error>(Error::InvalidQueue)
        } else {
            Ok(size)
        }),
{
    if size == 0 || size > MAX_QUEUE_SIZE || !queue_power(size) {
        return Err(Error::InvalidQueue);
    }
    Ok(size)
}

/// The control queue size of a modern device: at most eight, a power of two of at
/// least two.
pub fn modern_queue_size(offered: u16) -> (r: Result<u16, Error>)
    ensures
        ({
            let size = if offered < 8 { offered } else { 8u16 };
            r == (if size < 2 || !is_queue_power(size) { Err::<u16, Error>(Error::InvalidQueue) } else { Ok(size) })
        }),
{
    let size = if offered < 8 { offered } else { 8 };
    if size < 2 || !queue_power(size) {
        return Err(Error::InvalidQueue);
    }
    Ok(size)
}

/// The available-ring slot the next request goes in, and the index published after it.
pub fn next_available(available: u16, size: u16) -> (r: (u16, u16))
    requires
        size > 0,
    ensures
        r == ((available % size) as u16, if available == u16::MAX { 0u16 } else { (available + 1) as u16 }),
{
    (available % size, available.wrapping_add(1))
}

/// The scanout a display-info response reports: (width, height, enabled) of the first
/// display; `InvalidDisplayResponse` when the response is of another type.
pub fn display_info(response: &[u8]) -> (r: Result<(u32, u32, bool), Error>)
    requires
        response@.len() >= 44,
    ensures
        spec_le_u32(response@, 0) != RESP_OK_DISPLAY_INFO ==> r == Err::<(u32, u32, bool), Error>(
            Error::InvalidDisplayResponse(spec_le_u32(response@, 0) as u32),
        ),
        spec_le_u32(response@, 0) == RESP_OK_DISPLAY_INFO ==> r == Ok::<(u32, u32, bool), Error>(
            (
                spec_le_u32(response@, 32) as u32,
                spec_le_u32(response@, 36) as u32,
                spec_le_u32(response@, 40) != 0,
            ),
        ),
{
    let response_type = le_u32(response, 0);
    if response_type != RESP_OK_DISPLAY_INFO {
        return Err(Error::InvalidDisplayResponse(response_type));
    }
    Ok((le_u32(response, 32), le_u32(response, 36), le_u32(response, 40) != 0))
}

/// A command's response must be OK without data.
pub fn expect_ok_nodata(response: &[u8]) -> (r: Result<(), Error>)
    requires
        response@.len() >= 4,
    ensures
        r == (if spec_le_u32(response@, 0) == RESP_OK_NODATA {
            Ok::<(), Error>(())
        } else {
            Err(Error::InvalidDisplayResponse(spec_le_u32(response@, 0) as u32))
        }),
{
    let response_type = le_u32(response, 0);
    if response_type != RESP_OK_NODATA {
        return Err(Error::InvalidDisplayResponse(response_type));
    }
    Ok(())
}

/// The framebuffer's size and the scanout rectangle the device will show, when the
/// framebuffer is 32-bit, non-empty, its rows fit its stride and its rows its size, its
/// size fits 32 bits, and the device's scanout is at least as large.
pub open spec fn framebuffer_plan(fb: RawFramebuffer, scanout_width: u32, scanout_height: u32) -> Result<
    (u32, u32, u32),
    Error,
> {
    if fb.bytes_per_pixel != 4 || fb.width == 0 || fb.height == 0 || fb.stride < fb.width * 4 || fb.stride
        * fb.height > usize::MAX || fb.stride * fb.height > fb.size {
        Err(Error::UnsupportedFeatures)
    } else if fb.size > u32::MAX {
        Err(Error::AddressTooWide)
    } else if scanout_width < fb.width || scanout_height < fb.height {
        Err(Error::ModeMismatch)
    } else {
        Ok((fb.size as u32, fb.width, fb.height))
    }
}

pub fn plan_framebuffer(fb: &RawFramebuffer, scanout_width: u32, scanout_height: u32) -> (r: Result<
    (u32, u32, u32),
    Error,
>)
    ensures
        r == framebuffer_plan(*fb, scanout_width, scanout_height),
{
    let too_narrow = match (fb.width as usize).checked_mul(4) {
        Some(row) => fb.stride < row,
        None => true,
    };
    let too_small = match fb.stride.checked_mul(fb.height as usize) {
        Some(size) => size > fb.size,
        None => true,
    };
    if fb.bytes_per_pixel != 4 || fb.width == 0 || fb.height == 0 || too_narrow || too_small {
        return Err(Error::UnsupportedFeatures);
    }
    if fb.size > u32::MAX as usize {
        return Err(Error::AddressTooWide);
    }
    match crate::drivers::display::validate_scanout(fb.width, fb.height, scanout_width, scanout_height) {
        Some((w, h)) => Ok((fb.size as u32, w, h)),
        None => Err(Error::ModeMismatch),
    }
}

/// The device's pixel format for a framebuffer format.
pub fn pixel_format(format: PixelFormat) -> (r: u32)
    ensures
        r == (match format {
            PixelFormat::Bgr => FORMAT_B8G8R8A8_UNORM,
            PixelFormat::Rgb => FORMAT_R8G8B8A8_UNORM,
        }),
{
    match format {
        PixelFormat::Bgr => FORMAT_B8G8R8A8_UNORM,
        PixelFormat::Rgb => FORMAT_R8G8B8A8_UNORM,
    }
}

/// A request page with only its command type set.
pub fn command(kind: u32) -> (r: Vec<u8>)
    ensures
        r@.len() == REQUEST_SIZE,
        spec_le_u32(r@, 0) == kind,
        forall|i: int| 4 <= i < REQUEST_SIZE ==> r@[i] == 0,
{
    let mut request = zeroes(REQUEST_SIZE);
    put_u32(&mut request, 0, kind);
    request
}

fn write_rect(request: &mut Vec<u8>, offset: usize, width: u32, height: u32)
    requires
        offset + 16 <= old(request)@.len(),
        old(request)@.len() <= REQUEST_SIZE,
    ensures
        final(request)@.len() == old(request)@.len(),
        spec_le_u32(final(request)@, offset as int) == 0,
        spec_le_u32(final(request)@, offset + 4) == 0,
        spec_le_u32(final(request)@, offset + 8) == width,
        spec_le_u32(final(request)@, offset + 12) == height,
        spec_le_u32(final(request)@, 0) == spec_le_u32(old(request)@, 0) || offset < 4,
{
    put_u32(request, offset, 0);
    put_u32(request, offset + 4, 0);
    put_u32(request, offset + 8, width);
    put_u32(request, offset + 12, height);
    if offset >= 4 {
        assert(spec_le_u32(request@, 0) == spec_le_u32(old(request)@, 0));
    }
}

/// The five commands that put a framebuffer on the scanout, in order: create the 2D
/// resource, attach the framebuffer as its backing, set the scanout, transfer to the
/// host and flush.
pub fn framebuffer_commands(fb: &RawFramebuffer, size: u32, width: u32, height: u32) -> (r: Vec<Vec<u8>>)
    ensures
        r@.len() == 5,
        forall|i: int| 0 <= i < 5 ==> (#[trigger] r@[i])@.len() == REQUEST_SIZE,
        spec_le_u32(r@[0]@, 0) == CMD_RESOURCE_CREATE_2D,
        spec_le_u32(r@[0]@, 28) == (match fb.format {
            PixelFormat::Bgr => FORMAT_B8G8R8A8_UNORM,
            PixelFormat::Rgb => FORMAT_R8G8B8A8_UNORM,
        }),
        spec_le_u32(r@[0]@, 32) == fb.width && spec_le_u32(r@[0]@, 36) == fb.height,
        spec_le_u32(r@[1]@, 0) == CMD_RESOURCE_ATTACH_BACKING,
        spec_le_u64(r@[1]@, 32) == fb.base && spec_le_u32(r@[1]@, 40) == size,
        spec_le_u32(r@[2]@, 0) == CMD_SET_SCANOUT,
        spec_le_u32(r@[2]@, 32) == width && spec_le_u32(r@[2]@, 36) == height,
        spec_le_u32(r@[2]@, 44) == RESOURCE_ID,
        spec_le_u32(r@[3]@, 0) == CMD_TRANSFER_TO_HOST_2D,
        spec_le_u32(r@[3]@, 48) == RESOURCE_ID,
        spec_le_u32(r@[4]@, 0) == CMD_RESOURCE_FLUSH,
        spec_le_u32(r@[4]@, 40) == RESOURCE_ID,
{
    let mut create = command(CMD_RESOURCE_CREATE_2D);
    put_u32(&mut create, 24, RESOURCE_ID);
    put_u32(&mut create, 28, pixel_format(fb.format));
    put_u32(&mut create, 32, fb.width);
    put_u32(&mut create, 36, fb.height);
    let mut attach = command(CMD_RESOURCE_ATTACH_BACKING);
    put_u32(&mut attach, 24, RESOURCE_ID);
    put_u32(&mut attach, 28, 1);
    put_u64(&mut attach, 32, fb.base);
    put_u32(&mut attach, 40, size);
    put_u32(&mut attach, 44, 0);
    let mut scanout = command(CMD_SET_SCANOUT);
    write_rect(&mut scanout, 24, width, height);
    put_u32(&mut scanout, 40, 0);
    put_u32(&mut scanout, 44, RESOURCE_ID);
    let mut transfer = command(CMD_TRANSFER_TO_HOST_2D);
    write_rect(&mut transfer, 24, width, height);
    put_u64(&mut transfer, 40, 0);
    put_u32(&mut transfer, 48, RESOURCE_ID);
    put_u32(&mut transfer, 52, 0);
    let mut flush = command(CMD_RESOURCE_FLUSH);
    write_rect(&mut flush, 24, width, height);
    put_u32(&mut flush, 40, RESOURCE_ID);
    assert(spec_le_u32(create@, 0) == CMD_RESOURCE_CREATE_2D);
    let mut all: Vec<Vec<u8>> = Vec::new();
    all.push(create);
    all.push(attach);
    all.push(scanout);
    all.push(transfer);
    all.push(flush);
    all
}

/// Checks the queue layout rules on known values.
pub fn contract_self_check() {
    let layout = queue_layout(8);
    assert(layout == Some((128usize, 4096usize, 4164usize)));
    let zero = queue_layout(0);
    assert(zero is None);
    let three = queue_layout(3);
    assert(three is None);
    let odd = queue_layout(MAX_QUEUE_SIZE - 1);
    assert(odd is None);
}

} // verus!
