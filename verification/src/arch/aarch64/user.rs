use vstd::prelude::*;
use crate::arch::table_memory::FrameAllocator;
use crate::arch::user_image::{argv_page, argv_page_holds, code_page, ARGV_PAGE_BYTES, PAGE_BYTES};

verus! {

pub const USER_CODE_BASE: u64 = 0x0000_0800_0000_0000;
pub const USER_STACK_TOP: u64 = 0x0000_0800_0010_0000;
pub const ARGV_BASE: u64 = 0x0000_0800_000f_ff00;
/// Where the argument page starts inside the stack frame.
pub const ARGV_OFFSET: usize = 0xf00;
/// The value the probe program exits with.
pub const PROBE_EXIT_VALUE: u64 = 42;

/// The probe program: `mov x0, #42; mov x8, #Exit; svc #0; brk #0`.
pub fn probe_code() -> (r: Vec<u8>)
    ensures
        r@ == seq![
            0x40u8, 0x05, 0x80, 0xd2, 0x28, 0x00, 0x80, 0xd2, 0x01, 0x00, 0x00, 0xd4, 0x00, 0x00, 0x20, 0xd4,
        ],
{
    vec![0x40u8, 0x05, 0x80, 0xd2, 0x28, 0x00, 0x80, 0xd2, 0x01, 0x00, 0x00, 0xd4, 0x00, 0x00, 0x20, 0xd4]
}

/// What the kernel reports of the first user program.
#[derive(Clone, Copy, Debug)]
pub struct Context {
    pub planned: bool,
    pub ready: bool,
    pub payload_ready: bool,
    pub mapped: bool,
    pub el: u8,
    pub rip: u64,
    pub rsp: u64,
    pub spsr: u64,
    pub code_frame: u64,
    pub stack_frame: u64,
    pub code_prefix: [u8; 16],
}

/// The first user program's progress: planned, its code and stack frames taken, mapped,
/// and run to its expected exit.
#[derive(Clone, Copy, Debug, PartialEq, Eq, Structural)]
pub struct ProbeState {
    pub planned: bool,
    pub payload_ready: bool,
    pub mapped: bool,
    pub probed: bool,
    pub code_frame: u64,
    pub stack_frame: u64,
}

impl ProbeState {
    pub fn new() -> (r: Self)
        ensures
            r == (ProbeState {
                planned: false,
                payload_ready: false,
                mapped: false,
                probed: false,
                code_frame: 0,
                stack_frame: 0,
            }),
    {
        ProbeState { planned: false, payload_ready: false, mapped: false, probed: false, code_frame: 0, stack_frame: 0 }
    }

    /// Marks the program planned and, the first time, takes a code and a stack frame from
    /// `frames`: they are returned for the caller to fill (the probe code, a zeroed stack)
    /// and map, reporting the outcome with `set_mapped`. `None` when the frames were taken
    /// before or the allocator has none.
    pub fn prepare<A: FrameAllocator>(&mut self, frames: &mut A) -> (r: Option<(u64, u64)>)
        ensures
            final(self).planned,
            old(self).payload_ready ==> r is None && *final(self) == (ProbeState { planned: true, ..*old(self) }),
            r is None ==> final(self).payload_ready == old(self).payload_ready && final(self).code_frame == old(self).code_frame && final(self).stack_frame == old(self).stack_frame,
            r matches Some((code, stack)) ==> !old(self).payload_ready && *final(self) == (ProbeState {
                planned: true,
                payload_ready: true,
                code_frame: code,
                stack_frame: stack,
                ..*old(self)
            }),
            final(self).mapped == old(self).mapped && final(self).probed == old(self).probed,
    {
        self.planned = true;
        if self.payload_ready {
            return None;
        }
        let code = match frames.alloc_frame() {
            Some(f) => f,
            None => return None,
        };
        let stack = match frames.alloc_frame() {
            Some(f) => f,
            None => return None,
        };
        self.code_frame = code;
        self.stack_frame = stack;
        self.payload_ready = true;
        Some((code, stack))
    }

    pub fn set_mapped(&mut self, mapped: bool)
        ensures
            *final(self) == (ProbeState { mapped, ..*old(self) }),
    {
        self.mapped = mapped;
    }

    /// The report, with the exception level and the first bytes of the code frame read now.
    pub fn context(&self, el: u8, code_prefix: [u8; 16]) -> (r: Context)
        ensures
            r == (Context {
                planned: self.planned,
                ready: self.probed,
                payload_ready: self.payload_ready,
                mapped: self.mapped,
                el,
                rip: USER_CODE_BASE,
                rsp: (USER_STACK_TOP - 16) as u64,
                spsr: 0,
                code_frame: self.code_frame,
                stack_frame: self.stack_frame,
                code_prefix,
            }),
    {
        Context {
            planned: self.planned,
            ready: self.probed,
            payload_ready: self.payload_ready,
            mapped: self.mapped,
            el,
            rip: USER_CODE_BASE,
            rsp: USER_STACK_TOP - 16,
            spsr: 0,
            code_frame: self.code_frame,
            stack_frame: self.stack_frame,
            code_prefix,
        }
    }

    /// Whether the program may be entered: it must be mapped.
    pub fn can_enter(&self) -> (r: bool)
        ensures
            r == self.mapped,
    {
        self.mapped
    }

    /// Records what the program exited with: the probe succeeded when it is the expected
    /// value.
    pub fn probe_finished(&mut self, value: u64) -> (r: Option<u64>)
        ensures
            r == Some(value),
            *final(self) == (ProbeState { probed: old(self).probed || value == PROBE_EXIT_VALUE, ..*old(self) }),
    {
        if value == PROBE_EXIT_VALUE {
            self.probed = true;
        }
        Some(value)
    }

    /// Loads `bytes` as the program: the frame to write and the page to write there
    /// (`bytes` zero-padded). `None` unless they fit in a page and the program is mapped with
    /// a code frame.
    pub fn load_code(&self, bytes: &[u8]) -> (r: Option<(u64, Vec<u8>)>)
        ensures
            !(bytes@.len() <= PAGE_BYTES && self.mapped && self.code_frame != 0) ==> r is None,
            bytes@.len() <= PAGE_BYTES && self.mapped && self.code_frame != 0 ==> (r matches Some((frame, page)) && frame == self.code_frame
                && page@.len() == PAGE_BYTES && page@.subrange(0, bytes@.len() as int) == bytes@ && forall|k: int|
                bytes@.len() <= k < PAGE_BYTES ==> #[trigger] page@[k] == 0),
    {
        if bytes.len() > PAGE_BYTES || !self.mapped || self.code_frame == 0 {
            return None;
        }
        match code_page(bytes) {
            Some(page) => Some((self.code_frame, page)),
            None => None,
        }
    }

    /// The argument page for `args` (see `argv_page`), with the stack frame and offset it goes
    /// to; `None` until the program is mapped with a stack frame.
    pub fn load_argv(&self, args: &Vec<Vec<u8>>) -> (r: Option<(u64, usize, Vec<u8>)>)
        ensures
            !(self.mapped && self.stack_frame != 0) ==> r is None,
            self.mapped && self.stack_frame != 0 ==> (r matches Some((frame, offset, page)) && frame == self.stack_frame && offset
                == ARGV_OFFSET && argv_page_holds(page@, args@, ARGV_BASE)),
            ARGV_OFFSET + ARGV_PAGE_BYTES == PAGE_BYTES,
    {
        if self.mapped && self.stack_frame != 0 {
            Some((self.stack_frame, ARGV_OFFSET, argv_page(args, ARGV_BASE)))
        } else {
            None
        }
    }

    /// The code page and the stack page with the frames that hold them, for `frame_offset`.
    pub fn regions(&self) -> (r: [(u64, u64); 2])
        ensures
            r@ == seq![
                (USER_CODE_BASE, self.code_frame),
                ((USER_STACK_TOP - PAGE_BYTES) as u64, self.stack_frame),
            ],
    {
        [(USER_CODE_BASE, self.code_frame), (USER_STACK_TOP - PAGE_BYTES as u64, self.stack_frame)]
    }
}

} // verus!
