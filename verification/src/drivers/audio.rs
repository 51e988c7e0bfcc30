use vstd::prelude::*;

verus! {

pub const AC97_CLASS: u32 = 0x0004_0100;
pub const NAM_SIZE: u16 = 0x0400;
pub const NABM_SIZE: u16 = 0x0100;
pub const PCM_RATE: u16 = 48_000;
pub const PCM_BYTES: usize = 4096;
pub const RING_ENTRIES: usize = 4;
pub const STATUS_FIFO_ERROR: u16 = 0x10;
pub const STATUS_BUFFER_COMPLETE: u16 = 8;
pub const STATUS_LAST_VALID: u16 = 4;
pub const STATUS_HALTED: u16 = 1;
pub const STATUS_CLEAR: u16 = 0x1c;
pub const EXTENDED_VARIABLE_RATE: u16 = 1;
pub const BDL_IOC: u32 = 0x8000_0000;
/// The codec-ready bit of the global status register.
pub const GLOBAL_CODEC_READY: u32 = 0x100;

#[derive(Clone, Copy, Debug, PartialEq, Eq, Structural)]
pub struct PcmFormat {
    pub sample_rate: u32,
    pub channels: u8,
    pub bits: u8,
}

impl PcmFormat {
    /// Stereo 16-bit samples at 48 kHz.
    pub fn stereo_s16_48k() -> (r: Self)
        ensures
            r == (PcmFormat { sample_rate: 48_000, channels: 2, bits: 16 }),
    {
        PcmFormat { sample_rate: PCM_RATE as u32, channels: 2, bits: 16 }
    }
}

#[derive(Clone, Copy, Debug, PartialEq, Eq, Structural)]
pub enum AudioError {
    InvalidPciBar,
    PciCommand,
    RegisterAccess,
    CodecUnavailable,
    DmaUnavailable,
    AddressTooWide,
    InvalidSamples,
    SilentFallback,
}

#[derive(Clone, Copy, Debug, PartialEq, Eq, Structural)]
pub struct Status {
    pub bus: u8,
    pub slot: u8,
    pub function: u8,
    pub vendor: u16,
    pub device: u16,
    pub nam: u16,
    pub nabm: u16,
    pub irq: u8,
    pub codec_ready: bool,
    pub codec_vendor1: u16,
    pub codec_vendor2: u16,
    pub extended_audio_id: u16,
    pub format: PcmFormat,
    pub ring_entries: u8,
    pub buffer_bytes: u16,
    pub running: bool,
    pub recoveries: u32,
}

#[derive(Clone, Copy, Debug, PartialEq, Eq, Structural)]
pub enum InitResult {
    Ready(Status),
    Unsupported,
    Failed(AudioError),
}

/// A PCM submission holds whole stereo frames and fits one buffer.
pub fn valid_samples(count: usize) -> (r: bool)
    ensures
        r == (count != 0 && count % 2 == 0 && count <= PCM_BYTES / 2),
{
    count != 0 && count % 2 == 0 && count <= PCM_BYTES / 2
}

/// The control word of a buffer descriptor: interrupt on completion, and the length in
/// samples.
pub fn bdl_control(bytes: usize) -> (r: u32)
    requires
        bytes <= u32::MAX,
    ensures
        r == BDL_IOC | (bytes / 2) as u32,
{
    BDL_IOC | (bytes as u32 / 2)
}

/// The buffer descriptor list: each data page's address and the full-buffer control.
pub fn bdl_entries(pages: &[u64]) -> (r: Vec<(u32, u32)>)
    requires
        forall|i: int| 0 <= i < pages@.len() ==> pages@[i] <= u32::MAX,
    ensures
        r@.len() == pages@.len(),
        forall|i: int| 0 <= i < pages@.len() ==> r@[i] == (pages@[i] as u32, BDL_IOC | (PCM_BYTES / 2) as u32),
{
    let mut entries: Vec<(u32, u32)> = Vec::new();
    let mut i: usize = 0;
    while i < pages.len()
        invariant
            i <= pages@.len(),
            entries@.len() == i,
            forall|k: int| 0 <= k < pages@.len() ==> pages@[k] <= u32::MAX,
            forall|k: int| 0 <= k < i ==> entries@[k] == (pages@[k] as u32, BDL_IOC | (PCM_BYTES / 2) as u32),
        decreases pages@.len() - i,
    {
        entries.push((pages[i] as u32, bdl_control(PCM_BYTES)));
        i = i + 1;
    }
    entries
}

/// The little-endian bytes of a block of samples.
pub fn pcm_bytes(samples: &[i16]) -> (r: Vec<u8>)
    ensures
        r@.len() == 2 * samples@.len(),
        forall|i: int|
            0 <= i < samples@.len() ==> r@[2 * i] == (samples@[i] as u16 % 0x100) as u8 && r@[2 * i + 1] == (
            samples@[i] as u16 / 0x100) as u8,
{
    let mut out: Vec<u8> = Vec::new();
    let mut i: usize = 0;
    while i < samples.len()
        invariant
            i <= samples@.len(),
            out@.len() == 2 * i,
            forall|k: int|
                0 <= k < i ==> out@[2 * k] == (samples@[k] as u16 % 0x100) as u8 && out@[2 * k + 1] == (
                samples@[k] as u16 / 0x100) as u8,
        decreases samples@.len() - i,
    {
        let value = samples[i] as u16;
        out.push((value % 0x100) as u8);
        out.push((value / 0x100) as u8);
        i = i + 1;
    }
    out
}

/// What the playback poll does with the PCM-out status register.
#[derive(Clone, Copy, Debug, PartialEq, Eq, Structural)]
pub enum PollAction {
    /// The FIFO under- or overran: count a recovery and restart the stream.
    RecoverFifo,
    /// The stream halted or ran out of buffers: restart it.
    RecoverHalted,
    /// A buffer completed: acknowledge it.
    Acknowledge,
    /// Nothing to do.
    Idle,
}

/// The poll's decision, and whether the once-per-episode recovery warning may be logged
/// again.
pub fn poll_action(status: u16) -> (r: (PollAction, bool))
    ensures
        r == (if status & STATUS_FIFO_ERROR != 0 {
            (PollAction::RecoverFifo, false)
        } else if status & (STATUS_HALTED | STATUS_LAST_VALID) != 0 {
            (PollAction::RecoverHalted, false)
        } else if status & STATUS_BUFFER_COMPLETE != 0 {
            (PollAction::Acknowledge, false)
        } else {
            (PollAction::Idle, true)
        }),
{
    if status & STATUS_FIFO_ERROR != 0 {
        (PollAction::RecoverFifo, false)
    } else if status & (STATUS_HALTED | STATUS_LAST_VALID) != 0 {
        (PollAction::RecoverHalted, false)
    } else if status & STATUS_BUFFER_COMPLETE != 0 {
        (PollAction::Acknowledge, false)
    } else {
        (PollAction::Idle, true)
    }
}

/// The codec is ready when the global status says so.
pub fn codec_ready(global_status: u32) -> (r: Result<(), AudioError>)
    ensures
        r == (if global_status & GLOBAL_CODEC_READY != 0 {
            Ok::<(), AudioError>(())
        } else {
            Err(AudioError::CodecUnavailable)
        }),
{
    if global_status & GLOBAL_CODEC_READY != 0 {
        Ok(())
    } else {
        Err(AudioError::CodecUnavailable)
    }
}

/// Checks the format and sample rules on known values.
pub fn contract_self_check() {
    let format = PcmFormat::stereo_s16_48k();
    assert(format.channels == 2 && format.bits == 16);
    let control = bdl_control(PCM_BYTES);
    assert(control == BDL_IOC | (PCM_BYTES as u32 / 2));
    let two = valid_samples(2);
    assert(two);
    let one = valid_samples(1);
    assert(!one);
    let none = valid_samples(0);
    assert(!none);
}

} // verus!
