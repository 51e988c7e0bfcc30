use vstd::prelude::*;
use crate::arch::user_image::{argv_page, argv_page_holds, code_page, ARGV_PAGE_BYTES, PAGE_BYTES};
use crate::arch::x86_64::tables::{USER_CODE_SELECTOR, USER_DATA_SELECTOR};

verus! {

/// Where the argument page starts inside the stack frame: the last 256 bytes.
pub const ARGV_OFFSET: usize = 0xf00;

/// The probe program: `mov edi, 42; mov eax, Exit; int 0x80; ud2`.
pub fn probe_code() -> (r: Vec<u8>)
    ensures
        r@ == seq![0xbfu8, 0x2a, 0x00, 0x00, 0x00, 0xb8, 0x01, 0x00, 0x00, 0x00, 0xcd, 0x80, 0x0f, 0x0b],
{
    vec![0xbfu8, 0x2a, 0x00, 0x00, 0x00, 0xb8, 0x01, 0x00, 0x00, 0x00, 0xcd, 0x80, 0x0f, 0x0b]
}

/// What the kernel reports of the first user program.
#[derive(Clone, Copy, Debug)]
pub struct Context {
    pub ready: bool,
    pub rip: u64,
    pub rsp: u64,
    pub code_frame: u64,
    pub stack_frame: u64,
    pub cs: u16,
    pub ss: u16,
    pub code_prefix: [u8; 16],
}

/// The first user program's frames, once its code and stack pages are mapped.
#[derive(Clone, Copy, Debug, PartialEq, Eq, Structural)]
pub struct ProbeState {
    pub ready: bool,
    pub code_frame: u64,
    pub stack_frame: u64,
}

impl ProbeState {
    pub fn new() -> (r: Self)
        ensures
            r == (ProbeState { ready: false, code_frame: 0, stack_frame: 0 }),
    {
        ProbeState { ready: false, code_frame: 0, stack_frame: 0 }
    }

    /// Records the frames of the mapped code and stack pages once the probe code is in
    /// place; later calls change nothing.
    pub fn prepared(&mut self, code_frame: u64, stack_frame: u64) -> (r: bool)
        ensures
            r,
            old(self).ready ==> *final(self) == *old(self),
            !old(self).ready ==> *final(self) == (ProbeState { ready: true, code_frame, stack_frame }),
    {
        if !self.ready {
            self.code_frame = code_frame;
            self.stack_frame = stack_frame;
            self.ready = true;
        }
        true
    }

    /// The report: entry at the code page, the stack 16 bytes below its top, and the user
    /// segments.
    pub fn context(&self, code_base: u64, stack_top: u64, code_prefix: [u8; 16]) -> (r: Context)
        requires
            stack_top >= 16,
        ensures
            r.ready == self.ready && r.rip == code_base && r.rsp == stack_top - 16 && r.code_frame == self.code_frame
                && r.stack_frame == self.stack_frame && r.cs == USER_CODE_SELECTOR && r.ss == USER_DATA_SELECTOR
                && r.code_prefix == code_prefix,
    {
        Context {
            ready: self.ready,
            rip: code_base,
            rsp: stack_top - 16,
            code_frame: self.code_frame,
            stack_frame: self.stack_frame,
            cs: USER_CODE_SELECTOR,
            ss: USER_DATA_SELECTOR,
            code_prefix,
        }
    }

    /// Loads `bytes` as the program: the frame to write and the page to write there
    /// (`bytes` zero-padded). `None` unless they fit in a page and the program is prepared.
    pub fn load_code(&self, bytes: &[u8]) -> (r: Option<(u64, Vec<u8>)>)
        ensures
            !(bytes@.len() <= PAGE_BYTES && self.ready) ==> r is None,
            bytes@.len() <= PAGE_BYTES && self.ready ==> (r matches Some((frame, page)) && frame == self.code_frame
                && page@.len() == PAGE_BYTES && page@.subrange(0, bytes@.len() as int) == bytes@ && forall|k: int|
                bytes@.len() <= k < PAGE_BYTES ==> #[trigger] page@[k] == 0),
    {
        if bytes.len() > PAGE_BYTES || !self.ready {
            return None;
        }
        match code_page(bytes) {
            Some(page) => Some((self.code_frame, page)),
            None => None,
        }
    }

    /// The argument page for `args` (see `argv_page`) as the user sees it at `argv_base`, with
    /// the stack frame and offset it goes to; `None` until prepared.
    pub fn load_argv(&self, args: &Vec<Vec<u8>>, argv_base: u64) -> (r: Option<(u64, usize, Vec<u8>)>)
        requires
            argv_base + ARGV_PAGE_BYTES <= u64::MAX,
        ensures
            !(self.ready) ==> r is None,
            self.ready ==> (r matches Some((frame, offset, page)) && frame == self.stack_frame && offset
                == ARGV_OFFSET && argv_page_holds(page@, args@, argv_base)),
            ARGV_OFFSET + ARGV_PAGE_BYTES == PAGE_BYTES,
    {
        if self.ready {
            Some((self.stack_frame, ARGV_OFFSET, argv_page(args, argv_base)))
        } else {
            None
        }
    }
}

} // verus!
