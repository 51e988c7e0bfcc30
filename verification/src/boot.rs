use vstd::prelude::*;
use vstd::string::StringSliceAdditionalSpecFns;
use vstd::utf8::valid_utf8;

verus! {

pub const MULTIBOOT2_BOOTLOADER_MAGIC: u32 = 0x36d7_6289;
pub const MAX_MEMORY_REGIONS: usize = 64;
pub const MAX_RESERVED_REGIONS: usize = 32;
pub const MAX_MODULES: usize = 8;
pub const CMDLINE_MAX: usize = 128;
pub const MAX_MULTIBOOT_INFO: usize = 16 * 1024 * 1024;
pub const MAX_FDT_SIZE: usize = 16 * 1024 * 1024;

#[derive(Clone, Copy, Debug, PartialEq, Eq, Structural)]
pub enum Architecture {
    X86_64,
    Aarch64,
    Unknown,
}

impl Architecture {
    pub fn name(self) -> (r: &'static str)
        ensures
            r == (match self {
                Architecture::X86_64 => "x86_64",
                Architecture::Aarch64 => "aarch64",
                Architecture::Unknown => "unknown",
            }),
    {
        match self {
            Architecture::X86_64 => "x86_64",
            Architecture::Aarch64 => "aarch64",
            Architecture::Unknown => "unknown",
        }
    }
}

#[derive(Clone, Copy, Debug, PartialEq, Eq, Structural)]
pub enum PixelFormat {
    Rgb,
    Bgr,
}

/// A linear framebuffer the firmware handed over, by its physical base.
#[derive(Clone, Copy, Debug, PartialEq, Eq, Structural)]
pub struct RawFramebuffer {
    pub base: u64,
    pub size: usize,
    pub width: u32,
    pub height: u32,
    pub stride: usize,
    pub bytes_per_pixel: usize,
    pub format: PixelFormat,
}

#[derive(Clone, Copy, Debug, PartialEq, Eq, Structural)]
pub struct MemoryRegion {
    pub base: u64,
    pub length: u64,
}

#[derive(Clone, Copy, Debug, PartialEq, Eq, Structural)]
pub struct Module {
    pub start: u64,
    pub end: u64,
}

/// What the boot loader told the kernel.
pub struct BootInfo {
    pub architecture: Architecture,
    pub memory: Vec<MemoryRegion>,
    pub reserved: Vec<MemoryRegion>,
    pub modules: Vec<Module>,
    pub framebuffer: Option<RawFramebuffer>,
    pub cmdline: Vec<u8>,
    pub handoff_address: u64,
    pub efi_system_table: u64,
    pub efi_runtime_el: u8,
    pub efi_runtime_vbar: u64,
    pub efi_runtime_sp_el0: u64,
}

/// `core::str::from_utf8`: the bytes read as text, exactly when they are valid
/// UTF-8, and then the text's encoding is those bytes.
#[verifier::external_body]
fn utf8_text(bytes: &[u8]) -> (r: Option<&str>)
    ensures
        r is Some <==> valid_utf8(bytes@),
        r matches Some(text) ==> text.spec_bytes() == bytes@,
{
    match core::str::from_utf8(bytes) {
        Ok(text) => Some(text),
        Err(_) => None,
    }
}

/// A region is recorded when it is non-empty and does not wrap, while there is room.
pub open spec fn region_added(regions: Seq<MemoryRegion>, limit: int, base: u64, length: u64) -> Seq<
    MemoryRegion,
> {
    if length == 0 || base + length > u64::MAX || regions.len() >= limit {
        regions
    } else {
        regions.push(MemoryRegion { base, length })
    }
}

impl BootInfo {
    pub open spec fn wf(&self) -> bool {
        self.memory@.len() <= MAX_MEMORY_REGIONS && self.reserved@.len() <= MAX_RESERVED_REGIONS
            && self.modules@.len() <= MAX_MODULES && self.cmdline@.len() <= CMDLINE_MAX
    }

    pub fn empty(architecture: Architecture) -> (r: Self)
        ensures
            r.wf(),
            r.architecture == architecture,
            r.memory@.len() == 0 && r.reserved@.len() == 0 && r.modules@.len() == 0,
            r.framebuffer is None,
            r.cmdline@.len() == 0,
            r.handoff_address == 0 && r.efi_system_table == 0,
            r.efi_runtime_el == 0 && r.efi_runtime_vbar == 0 && r.efi_runtime_sp_el0 == 0,
    {
        BootInfo {
            architecture,
            memory: Vec::new(),
            reserved: Vec::new(),
            modules: Vec::new(),
            framebuffer: None,
            cmdline: Vec::new(),
            handoff_address: 0,
            efi_system_table: 0,
            efi_runtime_el: 0,
            efi_runtime_vbar: 0,
            efi_runtime_sp_el0: 0,
        }
    }

    /// Records usable memory.
    pub fn add_memory(&mut self, base: u64, length: u64)
        requires
            old(self).wf(),
        ensures
            final(self).wf(),
            final(self).memory@ == region_added(old(self).memory@, MAX_MEMORY_REGIONS as int, base, length),
            *final(self) == (BootInfo { memory: final(self).memory, ..*old(self) }),
            final(self).reserved@ == old(self).reserved@,
            final(self).modules@ == old(self).modules@,
            final(self).cmdline@ == old(self).cmdline@,
            final(self).framebuffer == old(self).framebuffer,
    {
        if length == 0 || base.checked_add(length).is_none() {
            return;
        }
        if self.memory.len() < MAX_MEMORY_REGIONS {
            self.memory.push(MemoryRegion { base, length });
        }
    }

    /// Records a range the kernel must not hand out.
    pub fn add_reserved(&mut self, base: u64, length: u64)
        requires
            old(self).wf(),
        ensures
            final(self).wf(),
            final(self).reserved@ == region_added(
                old(self).reserved@,
                MAX_RESERVED_REGIONS as int,
                base,
                length,
            ),
            *final(self) == (BootInfo { reserved: final(self).reserved, ..*old(self) }),
            final(self).memory@ == old(self).memory@,
            final(self).modules@ == old(self).modules@,
            final(self).cmdline@ == old(self).cmdline@,
            final(self).framebuffer == old(self).framebuffer,
    {
        if length == 0 || base.checked_add(length).is_none() {
            return;
        }
        if self.reserved.len() < MAX_RESERVED_REGIONS {
            self.reserved.push(MemoryRegion { base, length });
        }
    }

    /// Records a boot module; its range is reserved too.
    pub fn add_module(&mut self, start: u64, end: u64)
        requires
            old(self).wf(),
        ensures
            final(self).wf(),
            end <= start ==> final(self).reserved@ == old(self).reserved@ && final(self).modules@
                == old(self).modules@,
            end > start ==> final(self).reserved@ == region_added(
                old(self).reserved@,
                MAX_RESERVED_REGIONS as int,
                start,
                (end - start) as u64,
            ) && final(self).modules@ == (if old(self).modules@.len() < MAX_MODULES {
                old(self).modules@.push(Module { start, end })
            } else {
                old(self).modules@
            }),
            final(self).memory@ == old(self).memory@,
            final(self).cmdline@ == old(self).cmdline@,
            final(self).framebuffer == old(self).framebuffer,
            *final(self) == (BootInfo { reserved: final(self).reserved, modules: final(self).modules, ..*old(self) }),
    {
        if end <= start {
            return;
        }
        self.add_reserved(start, end - start);
        if self.modules.len() < MAX_MODULES {
            self.modules.push(Module { start, end });
        }
    }

    /// The firmware's (EL, VBAR, SP_EL0) for calling it at runtime.
    pub fn efi_runtime_context(&self) -> (r: (u8, u64, u64))
        ensures
            r == (self.efi_runtime_el, self.efi_runtime_vbar, self.efi_runtime_sp_el0),
    {
        (self.efi_runtime_el, self.efi_runtime_vbar, self.efi_runtime_sp_el0)
    }

    /// The command line as text; empty when it is not valid UTF-8.
    pub fn cmdline(&self) -> (r: &str)
        ensures
            valid_utf8(self.cmdline@) ==> r.spec_bytes() == self.cmdline@,
            !valid_utf8(self.cmdline@) ==> r@.len() == 0,
    {
        match utf8_text(self.cmdline.as_slice()) {
            Some(text) => text,
            None => {
                proof {
                    reveal_strlit("");
                }
                ""
            },
        }
    }

    pub fn efi_system_table(&self) -> (r: u64)
        ensures
            r == self.efi_system_table,
    {
        self.efi_system_table
    }
}

/// The framebuffer a loader describes, if it is usable: 24 or 32 bits per pixel,
/// a non-zero base and size, a pitch that holds a row, and a size that fits.
pub open spec fn spec_framebuffer(
    base: u64,
    pitch: u64,
    width: u64,
    height: u64,
    bpp: u8,
    format: PixelFormat,
) -> Option<RawFramebuffer> {
    let bytes_per_pixel: int = if bpp == 24 {
        3
    } else {
        4
    };
    if bpp != 24 && bpp != 32 {
        None
    } else if width * bytes_per_pixel > u64::MAX {
        None
    } else if base == 0 || width == 0 || height == 0 || pitch < width * bytes_per_pixel {
        None
    } else if pitch > usize::MAX || width > u32::MAX || height > u32::MAX || pitch * height
        > usize::MAX {
        None
    } else {
        Some(
            RawFramebuffer {
                base,
                size: (pitch * height) as usize,
                width: width as u32,
                height: height as u32,
                stride: pitch as usize,
                bytes_per_pixel: bytes_per_pixel as usize,
                format,
            },
        )
    }
}

pub fn framebuffer(base: u64, pitch: u64, width: u64, height: u64, bpp: u8, format: PixelFormat) -> (r:
    Option<RawFramebuffer>)
    ensures
        r == spec_framebuffer(base, pitch, width, height, bpp, format),
{
    let bytes_per_pixel: usize = if bpp == 24 {
        3
    } else if bpp == 32 {
        4
    } else {
        return None;
    };
    let minimum_pitch = match width.checked_mul(bytes_per_pixel as u64) {
        Some(p) => p,
        None => return None,
    };
    if base == 0 || width == 0 || height == 0 || pitch < minimum_pitch {
        return None;
    }
    if pitch > usize::MAX as u64 || width > u32::MAX as u64 || height > u32::MAX as u64 {
        return None;
    }
    let stride = pitch as usize;
    let w = width as u32;
    let h = height as u32;
    let size = match stride.checked_mul(h as usize) {
        Some(s) => s,
        None => return None,
    };
    Some(RawFramebuffer { base, size, width: w, height: h, stride, bytes_per_pixel, format })
}

/// Checks the framebuffer rules on a few descriptions.
pub fn contract_self_check() {
    let a = framebuffer(0, 12, 4, 1, 24, PixelFormat::Rgb);
    assert(a is None);
    let b = framebuffer(0x1000, 0, 4, 1, 24, PixelFormat::Rgb);
    assert(b is None);
    let c = framebuffer(0x1000, 11, 4, 1, 24, PixelFormat::Rgb);
    assert(c is None);
    let d = framebuffer(0x1000, 12, 4, 1, 24, PixelFormat::Rgb);
    assert(d is Some);
    let e = framebuffer(0x1000, u64::MAX, u64::MAX, 1, 32, PixelFormat::Rgb);
    assert(e is None);
}


/// What a Multiboot2 walk has gathered so far.
pub struct MbScan {
    pub memory: Seq<MemoryRegion>,
    pub reserved: Seq<MemoryRegion>,
    pub modules: Seq<Module>,
    pub cmdline: Seq<u8>,
    pub framebuffer: Option<RawFramebuffer>,
    pub efi_system_table: u64,
    pub efi_image_handle: u64,
}

pub open spec fn mb_empty() -> MbScan {
    MbScan {
        memory: Seq::empty(),
        reserved: Seq::empty(),
        modules: Seq::empty(),
        cmdline: Seq::empty(),
        framebuffer: None,
        efi_system_table: 0,
        efi_image_handle: 0,
    }
}

pub open spec fn u8_at(b: Seq<u8>, i: int) -> u8 {
    b[i]
}

pub open spec fn u32_at(b: Seq<u8>, i: int) -> int {
    crate::bytes::spec_le_u32(b, i)
}

pub open spec fn u64_at(b: Seq<u8>, i: int) -> int {
    crate::bytes::spec_le_u64(b, i)
}

/// The bytes of a NUL-terminated string at `start`, at most `limit` of them.
pub open spec fn c_string(b: Seq<u8>, start: int, limit: int) -> Seq<u8>
    decreases limit,
{
    if limit <= 0 || b[start] == 0 {
        Seq::empty()
    } else {
        seq![b[start]] + c_string(b, start + 1, limit - 1)
    }
}

proof fn lemma_c_string_len(b: Seq<u8>, start: int, limit: int)
    ensures
        c_string(b, start, limit).len() <= (if limit < 0 { 0 } else { limit }),
    decreases limit,
{
    if limit > 0 && b[start] != 0 {
        lemma_c_string_len(b, start + 1, limit - 1);
    }
}

/// The memory map entries from `entry` to `end`, `entry_size` apart: available
/// ones (type 1) are recorded.
pub open spec fn mb_entries(b: Seq<u8>, entry: int, end: int, entry_size: int, memory: Seq<MemoryRegion>) -> Seq<
    MemoryRegion,
>
    decreases end - entry,
{
    if entry_size < 24 || entry + 24 > end {
        memory
    } else {
        let base = u64_at(b, entry) as u64;
        let length = u64_at(b, entry + 8) as u64;
        let next = if u32_at(b, entry + 16) == 1 {
            region_added(memory, MAX_MEMORY_REGIONS as int, base, length)
        } else {
            memory
        };
        if entry + entry_size > end {
            next
        } else {
            mb_entries(b, entry + entry_size, end, entry_size, next)
        }
    }
}

/// The framebuffer tag at `tag` of `size` bytes, applied to the framebuffer found so far.
pub open spec fn mb_framebuffer(b: Seq<u8>, tag: int, size: int, current: Option<RawFramebuffer>) -> Option<
    RawFramebuffer,
> {
    let base = u64_at(b, tag + 8) as u64;
    let pitch = u32_at(b, tag + 16) as u64;
    let width = u32_at(b, tag + 20) as u64;
    let height = u32_at(b, tag + 24) as u64;
    let bpp = b[tag + 28];
    if b[tag + 29] == 1 && size >= 38 {
        let red = b[tag + 32];
        let blue = b[tag + 36];
        if red == 0 && blue == 16 {
            spec_framebuffer(base, pitch, width, height, bpp, PixelFormat::Rgb)
        } else if red == 16 && blue == 0 {
            spec_framebuffer(base, pitch, width, height, bpp, PixelFormat::Bgr)
        } else {
            current
        }
    } else {
        current
    }
}

/// One tag's effect on the scan, or `None` for a malformed memory map tag.
#[verifier::opaque]
pub open spec fn mb_tag(b: Seq<u8>, tag: int, size: int, scan: MbScan) -> Option<MbScan> {
    let tag_type = u32_at(b, tag);
    if tag_type == 1 {
        Some(MbScan { cmdline: c_string(b, tag + 8, vstd::math::min(CMDLINE_MAX as int, size - 8)), ..scan })
    } else if tag_type == 3 && size >= 16 {
        let start = u32_at(b, tag + 8) as u64;
        let end = u32_at(b, tag + 12) as u64;
        if end <= start {
            Some(scan)
        } else {
            Some(
                MbScan {
                    reserved: region_added(scan.reserved, MAX_RESERVED_REGIONS as int, start, (end - start) as u64),
                    modules: if scan.modules.len() < MAX_MODULES {
                        scan.modules.push(Module { start, end })
                    } else {
                        scan.modules
                    },
                    ..scan
                },
            )
        }
    } else if tag_type == 6 && size >= 16 {
        let entry_size = u32_at(b, tag + 8);
        if entry_size < 24 {
            None
        } else {
            Some(MbScan { memory: mb_entries(b, tag + 16, tag + size, entry_size, scan.memory), ..scan })
        }
    } else if tag_type == 8 && size >= 32 {
        Some(MbScan { framebuffer: mb_framebuffer(b, tag, size, scan.framebuffer), ..scan })
    } else if tag_type == 12 && size >= 16 {
        Some(MbScan { efi_system_table: u64_at(b, tag + 8) as u64, ..scan })
    } else if tag_type == 20 && size >= 16 {
        Some(MbScan { efi_image_handle: u64_at(b, tag + 8) as u64, ..scan })
    } else {
        Some(scan)
    }
}

/// The walk over the tags from `offset` to `total`; an end tag (type 0) stops it,
/// a tag that is too small or runs past the end makes it fail.
pub open spec fn mb_walk(b: Seq<u8>, total: int, offset: int, scan: MbScan) -> Option<MbScan>
    decreases total - offset,
{
    if offset + 8 > total {
        Some(scan)
    } else {
        let size = u32_at(b, offset + 4);
        if size < 8 || offset + size > total {
            None
        } else if u32_at(b, offset) == 0 {
            Some(scan)
        } else {
            match mb_tag(b, offset, size, scan) {
                None => None,
                Some(next) => if offset + (size + 7) / 8 * 8 > total {
                    Some(next)
                } else {
                    mb_walk(b, total, offset + (size + 7) / 8 * 8, next)
                },
            }
        }
    }
}


impl BootInfo {
    /// The walk's view of this boot information, with the framebuffer found and the
    /// two firmware handles.
    pub open spec fn as_scan(&self, framebuffer: Option<RawFramebuffer>, system_table: u64, image_handle: u64) -> MbScan {
        MbScan {
            memory: self.memory@,
            reserved: self.reserved@,
            modules: self.modules@,
            cmdline: self.cmdline@,
            framebuffer,
            efi_system_table: system_table,
            efi_image_handle: image_handle,
        }
    }
}

/// Copies a NUL-terminated string at `start`, at most `limit` bytes.
fn copy_c_string(bytes: &[u8], start: usize, limit: usize) -> (r: Vec<u8>)
    requires
        start + limit <= bytes@.len(),
    ensures
        r@ == c_string(bytes@, start as int, limit as int),
{
    let mut out: Vec<u8> = Vec::new();
    let mut index: usize = 0;
    let _n = bytes.len();
    while index < limit && bytes[start + index] != 0
        invariant
            index <= limit,
            start + limit <= bytes@.len(),
            bytes@.len() <= usize::MAX,
            c_string(bytes@, start as int, limit as int) == out@ + c_string(
                bytes@,
                start + index,
                limit - index,
            ),
        decreases limit - index,
    {
        let byte = bytes[start + index];
        proof {
            assert(c_string(bytes@, start + index, limit - index) == seq![byte] + c_string(
                bytes@,
                start + index + 1,
                limit - index - 1,
            ));
            assert(out@ + (seq![byte] + c_string(bytes@, start + index + 1, limit - index - 1))
                == out@.push(byte) + c_string(bytes@, start + index + 1, limit - index - 1));
        }
        out.push(byte);
        index = index + 1;
    }
    assert(c_string(bytes@, start + index, limit - index) == Seq::<u8>::empty());
    assert(out@ + Seq::<u8>::empty() == out@);
    out
}

/// The available ranges of a memory map tag's entries.
fn scan_entries(bytes: &[u8], info: &mut BootInfo, entry_start: usize, end: usize, entry_size: usize)
    requires
        old(info).wf(),
        end <= bytes@.len(),
        entry_size >= 24,
    ensures
        final(info).wf(),
        final(info).memory@ == mb_entries(bytes@, entry_start as int, end as int, entry_size as int, old(info).memory@),
        *final(info) == (BootInfo { memory: final(info).memory, ..*old(info) }),
{
    let mut entry = entry_start;
    while entry <= end && end - entry >= 24
        invariant
            info.wf(),
            end <= bytes@.len(),
            entry_size >= 24,
            *info == (BootInfo { memory: info.memory, ..*old(info) }),
            mb_entries(bytes@, entry_start as int, end as int, entry_size as int, old(info).memory@)
                == mb_entries(bytes@, entry as int, end as int, entry_size as int, info.memory@),
        decreases end - entry,
    {
        let base = crate::bytes::le_u64(bytes, entry);
        let length = crate::bytes::le_u64(bytes, entry + 8);
        if crate::bytes::le_u32(bytes, entry + 16) == 1 {
            info.add_memory(base, length);
        }
        if entry_size > end - entry {
            return;
        }
        entry = entry + entry_size;
    }
}

/// Applies the tag at `tag` of `size` bytes; false for a malformed memory map tag.
fn apply_tag(
    bytes: &[u8],
    tag: usize,
    size: usize,
    tag_type: u32,
    info: &mut BootInfo,
    framebuffer_info: &mut Option<RawFramebuffer>,
    efi_system_table: &mut u64,
    efi_image_handle: &mut u64,
) -> (r: bool)
    requires
        old(info).wf(),
        size >= 8,
        tag + size <= bytes@.len(),
        tag_type == u32_at(bytes@, tag as int),
        old(info).architecture == Architecture::X86_64,
        old(info).framebuffer is None,
    ensures
        final(info).wf(),
        final(info).architecture == Architecture::X86_64,
        final(info).framebuffer is None,
        ({
            let before = old(info).as_scan(*old(framebuffer_info), *old(efi_system_table), *old(efi_image_handle));
            let after = final(info).as_scan(*final(framebuffer_info), *final(efi_system_table), *final(efi_image_handle));
            match mb_tag(bytes@, tag as int, size as int, before) {
                None => !r,
                Some(scan) => r && after == scan,
            }
        }),
{
    reveal(mb_tag);
    let _n = bytes.len();
    if tag_type == 1 {
        let limit = if size - 8 < CMDLINE_MAX {
            size - 8
        } else {
            CMDLINE_MAX
        };
        info.cmdline = copy_c_string(bytes, tag + 8, limit);
        proof {
            lemma_c_string_len(bytes@, tag + 8, limit as int);
        }
    } else if tag_type == 3 && size >= 16 {
        let start = crate::bytes::le_u32(bytes, tag + 8) as u64;
        let end = crate::bytes::le_u32(bytes, tag + 12) as u64;
        info.add_module(start, end);
    } else if tag_type == 6 && size >= 16 {
        let entry_size = crate::bytes::le_u32(bytes, tag + 8) as usize;
        if entry_size < 24 {
            return false;
        }
        scan_entries(bytes, info, tag + 16, tag + size, entry_size);
    } else if tag_type == 8 && size >= 32 {
        let base = crate::bytes::le_u64(bytes, tag + 8);
        let pitch = crate::bytes::le_u32(bytes, tag + 16) as u64;
        let width = crate::bytes::le_u32(bytes, tag + 20) as u64;
        let height = crate::bytes::le_u32(bytes, tag + 24) as u64;
        let bpp = bytes[tag + 28];
        let pixel_type = bytes[tag + 29];
        if pixel_type == 1 && size >= 38 {
            let red = bytes[tag + 32];
            let blue = bytes[tag + 36];
            if red == 0 && blue == 16 {
                *framebuffer_info = framebuffer(base, pitch, width, height, bpp, PixelFormat::Rgb);
            } else if red == 16 && blue == 0 {
                *framebuffer_info = framebuffer(base, pitch, width, height, bpp, PixelFormat::Bgr);
            }
        }
    } else if tag_type == 12 && size >= 16 {
        *efi_system_table = crate::bytes::le_u64(bytes, tag + 8);
    } else if tag_type == 20 && size >= 16 {
        *efi_image_handle = crate::bytes::le_u64(bytes, tag + 8);
    }
    true
}

/// The boot information a Multiboot2 loader handed over in `bytes`, placed at
/// `address`, with the firmware image handle; `kernel` is the kernel image's range.
/// The memory map is left empty when the loader gave none; the firmware's map then
/// comes from elsewhere.
pub fn parse_multiboot2(bytes: &[u8], address: u64, kernel: (u64, u64)) -> (r: Option<(BootInfo, u64)>)
    ensures
        ({
            let b = bytes@;
            let total = u32_at(b, 0);
            let valid = b.len() >= 8 && 16 <= total <= MAX_MULTIBOOT_INFO && total <= b.len()
                && address + total <= u64::MAX;
            &&& !valid ==> r is None
            &&& valid ==> match mb_walk(b, total, 8, mb_empty()) {
                None => r is None,
                Some(scan) => r matches Some((info, image_handle)) && {
                    let with_fb = match scan.framebuffer {
                        Some(fb) => region_added(scan.reserved, MAX_RESERVED_REGIONS as int, fb.base, fb.size as u64),
                        None => scan.reserved,
                    };
                    let with_info = region_added(with_fb, MAX_RESERVED_REGIONS as int, address, total as u64);
                    &&& info.wf()
                    &&& info.architecture == Architecture::X86_64
                    &&& info.memory@ == scan.memory
                    &&& info.modules@ == scan.modules
                    &&& info.cmdline@ == scan.cmdline
                    &&& info.framebuffer == scan.framebuffer
                    &&& info.efi_system_table == scan.efi_system_table
                    &&& image_handle == scan.efi_image_handle
                    &&& info.handoff_address == address
                    &&& info.reserved@ == (if kernel.1 > kernel.0 {
                        region_added(with_info, MAX_RESERVED_REGIONS as int, kernel.0, (kernel.1 - kernel.0) as u64)
                    } else {
                        with_info
                    })
                },
            }
        }),
{
    if bytes.len() < 8 {
        return None;
    }
    let total_size = crate::bytes::le_u32(bytes, 0) as usize;
    if total_size < 16 || total_size > MAX_MULTIBOOT_INFO || total_size > bytes.len() {
        return None;
    }
    if address.checked_add(total_size as u64).is_none() {
        return None;
    }
    let mut info = BootInfo::empty(Architecture::X86_64);
    let mut offset: usize = 8;
    let mut framebuffer_info: Option<RawFramebuffer> = None;
    let mut efi_system_table: u64 = 0;
    let mut efi_image_handle: u64 = 0;
    let ghost b = bytes@;
    let ghost total = total_size as int;
    assert(info.memory@ =~= Seq::<MemoryRegion>::empty());
    assert(info.reserved@ =~= Seq::<MemoryRegion>::empty());
    assert(info.modules@ =~= Seq::<Module>::empty());
    assert(info.cmdline@ =~= Seq::<u8>::empty());
    assert(mb_empty() == info.as_scan(framebuffer_info, efi_system_table, efi_image_handle));
    while offset + 8 <= total_size
        invariant
            info.wf(),
            info.architecture == Architecture::X86_64,
            info.framebuffer is None,
            total_size == total,
            u32_at(bytes@, 0) == total,
            total_size <= MAX_MULTIBOOT_INFO,
            total_size <= bytes@.len(),
            b == bytes@,
            offset <= total_size + 8,
            mb_walk(b, total, 8, mb_empty()) == mb_walk(
                b,
                total,
                offset as int,
                info.as_scan(framebuffer_info, efi_system_table, efi_image_handle),
            ),
        ensures
            info.wf(),
            info.architecture == Architecture::X86_64,
            info.framebuffer is None,
            total_size == total,
            u32_at(bytes@, 0) == total,
            b == bytes@,
            mb_walk(b, total, 8, mb_empty()) == Some(info.as_scan(framebuffer_info, efi_system_table, efi_image_handle)),
        decreases total_size + 8 - offset,
    {
        let tag = offset;
        let tag_type = crate::bytes::le_u32(bytes, tag);
        let size = crate::bytes::le_u32(bytes, tag + 4) as usize;
        if size < 8 || size > total_size - offset {
            assert(mb_walk(b, total, offset as int, info.as_scan(framebuffer_info, efi_system_table, efi_image_handle)) is None);
            assert(mb_walk(b, total, 8, mb_empty()) is None);
            assert(u32_at(bytes@, 0) == total);
            assert(mb_walk(bytes@, u32_at(bytes@, 0), 8, mb_empty()) is None);
            return None;
        }
        if tag_type == 0 {
            assert(mb_walk(b, total, offset as int, info.as_scan(framebuffer_info, efi_system_table, efi_image_handle))
                == Some(info.as_scan(framebuffer_info, efi_system_table, efi_image_handle)));
            break;
        }
        let ghost info_scan_before = info.as_scan(framebuffer_info, efi_system_table, efi_image_handle);
        match apply_tag(bytes, tag, size, tag_type, &mut info, &mut framebuffer_info, &mut efi_system_table, &mut efi_image_handle) {
            false => {
                assert(mb_walk(b, total, offset as int, info_scan_before) is None);
                assert(mb_walk(bytes@, u32_at(bytes@, 0), 8, mb_empty()) is None);
                return None;
            },
            true => {},
        }
        let step = (size + 7) / 8 * 8;
        if step > total_size - offset {
            offset = total_size + 8;
        } else {
            offset = offset + step;
        }
    }
    let ghost scan = info.as_scan(framebuffer_info, efi_system_table, efi_image_handle);
    match framebuffer_info {
        Some(fb) => info.add_reserved(fb.base, fb.size as u64),
        None => {},
    }
    info.framebuffer = framebuffer_info;
    info.handoff_address = address;
    info.efi_system_table = efi_system_table;
    info.add_reserved(address, total_size as u64);
    if kernel.1 > kernel.0 {
        info.add_reserved(kernel.0, kernel.1 - kernel.0);
    }
    Some((info, efi_image_handle))
}


/// Firmware memory types the kernel may use: loader and boot-services code and data,
/// and conventional memory.
pub open spec fn efi_usable(kind: int) -> bool {
    (1 <= kind <= 4) || kind == 7
}

/// The memory an EFI memory map describes, descriptor by descriptor from `offset`;
/// `None` when a region's page count overflows.
pub open spec fn efi_regions(map: Seq<u8>, offset: int, size: int, memory: Seq<MemoryRegion>) -> Option<
    Seq<MemoryRegion>,
>
    decreases map.len() - offset,
{
    if size < 40 || offset + size > map.len() {
        Some(memory)
    } else {
        let kind = u32_at(map, offset);
        let base = u64_at(map, offset + 8) as u64;
        let pages = u64_at(map, offset + 24);
        if efi_usable(kind) && pages * 0x1000 > u64::MAX {
            None
        } else {
            let next = if efi_usable(kind) {
                region_added(memory, MAX_MEMORY_REGIONS as int, base, (pages * 0x1000) as u64)
            } else {
                memory
            };
            efi_regions(map, offset + size, size, next)
        }
    }
}

/// Records the usable memory of an EFI memory map whose descriptors are
/// `descriptor_size` bytes apart; false when a region's size overflows.
pub fn add_efi_descriptors(info: &mut BootInfo, map: &[u8], descriptor_size: usize) -> (r: bool)
    requires
        old(info).wf(),
        descriptor_size >= 40,
    ensures
        final(info).wf(),
        match efi_regions(map@, 0, descriptor_size as int, old(info).memory@) {
            None => !r,
            Some(memory) => r && final(info).memory@ == memory,
        },
        final(info).reserved@ == old(info).reserved@,
{
    let mut offset: usize = 0;
    while offset <= map.len() && descriptor_size <= map.len() - offset
        invariant
            info.wf(),
            descriptor_size >= 40,
            offset <= map@.len() + descriptor_size,
            info.reserved@ == old(info).reserved@,
            efi_regions(map@, 0, descriptor_size as int, old(info).memory@) == efi_regions(
                map@,
                offset as int,
                descriptor_size as int,
                info.memory@,
            ),
        decreases map@.len() - offset + descriptor_size,
    {
        let kind = crate::bytes::le_u32(map, offset);
        let base = crate::bytes::le_u64(map, offset + 8);
        let pages = crate::bytes::le_u64(map, offset + 24);
        if (1 <= kind && kind <= 4) || kind == 7 {
            match pages.checked_mul(0x1000) {
                None => return false,
                Some(length) => info.add_memory(base, length),
            }
        }
        offset = offset + descriptor_size;
    }
    true
}


pub const FDT_MAGIC: u32 = 0xd00d_feed;
/// Node slots the device-tree walk remembers; deeper nodes share the last.
pub const FDT_DEPTH_SLOTS: usize = 16;

#[derive(Clone, Copy, Debug, PartialEq, Eq, Structural)]
pub enum NodeKind {
    Chosen,
    Memory,
    SimpleFramebuffer,
    Other,
}

/// The big-endian 32-bit value at `i`, when all four bytes are there.
pub open spec fn be32(b: Seq<u8>, i: int) -> Option<int> {
    if 0 <= i && i + 4 <= b.len() {
        Some(b[i] * 0x100_0000 + b[i + 1] * 0x1_0000 + b[i + 2] * 0x100 + b[i + 3])
    } else {
        None
    }
}

pub fn read_be32(bytes: &[u8], offset: usize) -> (r: Option<u32>)
    ensures
        r matches Some(v) ==> be32(bytes@, offset as int) == Some(v as int),
        r is None ==> be32(bytes@, offset as int) is None,
{
    if offset > bytes.len() || bytes.len() - offset < 4 {
        return None;
    }
    Some(
        (bytes[offset] as u32) * 0x100_0000 + (bytes[offset + 1] as u32) * 0x1_0000 + (bytes[offset
            + 2] as u32) * 0x100 + bytes[offset + 3] as u32,
    )
}

/// The byte at `i`, or 0 past the end.
pub open spec fn byte_or_zero(b: Seq<u8>, i: int) -> u8 {
    if 0 <= i < b.len() {
        b[i]
    } else {
        0
    }
}

fn byte_at(bytes: &[u8], i: usize) -> (r: u8)
    ensures
        r == byte_or_zero(bytes@, i as int),
{
    if i < bytes.len() {
        bytes[i]
    } else {
        0
    }
}

/// The bytes at `at` begin with `expected`.
pub open spec fn starts_with_at(b: Seq<u8>, at: int, expected: Seq<u8>) -> bool {
    forall|k: int| 0 <= k < expected.len() ==> byte_or_zero(b, at + k) == expected[k]
}

/// The NUL-terminated string at `at` is `expected`.
pub open spec fn string_eq_at(b: Seq<u8>, at: int, expected: Seq<u8>) -> bool {
    starts_with_at(b, at, expected) && at + expected.len() < b.len() && b[at + expected.len()] == 0
}

fn starts_with_bytes(bytes: &[u8], at: usize, expected: &[u8]) -> (r: bool)
    ensures
        r == starts_with_at(bytes@, at as int, expected@),
{
    let _n = bytes.len();
    let mut k: usize = 0;
    while k < expected.len()
        invariant
            k <= expected@.len(),
            bytes@.len() <= usize::MAX,
            forall|j: int| 0 <= j < k ==> byte_or_zero(bytes@, at + j) == expected@[j],
        decreases expected@.len() - k,
    {
        if at > usize::MAX - k {
            assert(byte_or_zero(bytes@, at + k) == 0);
            if expected[k] != 0 {
                return false;
            }
        } else if byte_at(bytes, at + k) != expected[k] {
            return false;
        }
        k = k + 1;
    }
    true
}

fn string_eq_bytes(bytes: &[u8], at: usize, expected: &[u8]) -> (r: bool)
    ensures
        r == string_eq_at(bytes@, at as int, expected@),
{
    if !starts_with_bytes(bytes, at, expected) {
        return false;
    }
    if at >= bytes.len() || bytes.len() - at <= expected.len() {
        return false;
    }
    bytes[at + expected.len()] == 0
}

/// The length of a node name (up to 256) and what kind of node it names.
pub open spec fn name_len(b: Seq<u8>, at: int, n: int) -> int
    decreases 256 - n,
{
    if n >= 256 || byte_or_zero(b, at + n) == 0 {
        n
    } else {
        name_len(b, at, n + 1)
    }
}

pub open spec fn name_chosen() -> Seq<u8> {
    seq![99u8, 104u8, 111u8, 115u8, 101u8, 110u8]
}

fn bytes_chosen() -> (r: Vec<u8>)
    ensures
        r@ == name_chosen(),
{
    let mut v: Vec<u8> = Vec::new();
    v.push(99);
    v.push(104);
    v.push(111);
    v.push(115);
    v.push(101);
    v.push(110);
    v
}

pub open spec fn name_memory() -> Seq<u8> {
    seq![109u8, 101u8, 109u8, 111u8, 114u8, 121u8]
}

fn bytes_memory() -> (r: Vec<u8>)
    ensures
        r@ == name_memory(),
{
    let mut v: Vec<u8> = Vec::new();
    v.push(109);
    v.push(101);
    v.push(109);
    v.push(111);
    v.push(114);
    v.push(121);
    v
}

pub open spec fn name_simple_framebuffer() -> Seq<u8> {
    seq![115u8, 105u8, 109u8, 112u8, 108u8, 101u8, 45u8, 102u8, 114u8, 97u8, 109u8, 101u8, 98u8, 117u8, 102u8, 102u8, 101u8, 114u8]
}

fn bytes_simple_framebuffer() -> (r: Vec<u8>)
    ensures
        r@ == name_simple_framebuffer(),
{
    let mut v: Vec<u8> = Vec::new();
    v.push(115);
    v.push(105);
    v.push(109);
    v.push(112);
    v.push(108);
    v.push(101);
    v.push(45);
    v.push(102);
    v.push(114);
    v.push(97);
    v.push(109);
    v.push(101);
    v.push(98);
    v.push(117);
    v.push(102);
    v.push(102);
    v.push(101);
    v.push(114);
    v
}

pub open spec fn name_address_cells() -> Seq<u8> {
    seq![35u8, 97u8, 100u8, 100u8, 114u8, 101u8, 115u8, 115u8, 45u8, 99u8, 101u8, 108u8, 108u8, 115u8]
}

fn bytes_address_cells() -> (r: Vec<u8>)
    ensures
        r@ == name_address_cells(),
{
    let mut v: Vec<u8> = Vec::new();
    v.push(35);
    v.push(97);
    v.push(100);
    v.push(100);
    v.push(114);
    v.push(101);
    v.push(115);
    v.push(115);
    v.push(45);
    v.push(99);
    v.push(101);
    v.push(108);
    v.push(108);
    v.push(115);
    v
}

pub open spec fn name_size_cells() -> Seq<u8> {
    seq![35u8, 115u8, 105u8, 122u8, 101u8, 45u8, 99u8, 101u8, 108u8, 108u8, 115u8]
}

fn bytes_size_cells() -> (r: Vec<u8>)
    ensures
        r@ == name_size_cells(),
{
    let mut v: Vec<u8> = Vec::new();
    v.push(35);
    v.push(115);
    v.push(105);
    v.push(122);
    v.push(101);
    v.push(45);
    v.push(99);
    v.push(101);
    v.push(108);
    v.push(108);
    v.push(115);
    v
}

pub open spec fn name_reg() -> Seq<u8> {
    seq![114u8, 101u8, 103u8]
}

fn bytes_reg() -> (r: Vec<u8>)
    ensures
        r@ == name_reg(),
{
    let mut v: Vec<u8> = Vec::new();
    v.push(114);
    v.push(101);
    v.push(103);
    v
}

pub open spec fn name_bootargs() -> Seq<u8> {
    seq![98u8, 111u8, 111u8, 116u8, 97u8, 114u8, 103u8, 115u8]
}

fn bytes_bootargs() -> (r: Vec<u8>)
    ensures
        r@ == name_bootargs(),
{
    let mut v: Vec<u8> = Vec::new();
    v.push(98);
    v.push(111);
    v.push(111);
    v.push(116);
    v.push(97);
    v.push(114);
    v.push(103);
    v.push(115);
    v
}

pub open spec fn name_initrd_start() -> Seq<u8> {
    seq![108u8, 105u8, 110u8, 117u8, 120u8, 44u8, 105u8, 110u8, 105u8, 116u8, 114u8, 100u8, 45u8, 115u8, 116u8, 97u8, 114u8, 116u8]
}

fn bytes_initrd_start() -> (r: Vec<u8>)
    ensures
        r@ == name_initrd_start(),
{
    let mut v: Vec<u8> = Vec::new();
    v.push(108);
    v.push(105);
    v.push(110);
    v.push(117);
    v.push(120);
    v.push(44);
    v.push(105);
    v.push(110);
    v.push(105);
    v.push(116);
    v.push(114);
    v.push(100);
    v.push(45);
    v.push(115);
    v.push(116);
    v.push(97);
    v.push(114);
    v.push(116);
    v
}

pub open spec fn name_initrd_end() -> Seq<u8> {
    seq![108u8, 105u8, 110u8, 117u8, 120u8, 44u8, 105u8, 110u8, 105u8, 116u8, 114u8, 100u8, 45u8, 101u8, 110u8, 100u8]
}

fn bytes_initrd_end() -> (r: Vec<u8>)
    ensures
        r@ == name_initrd_end(),
{
    let mut v: Vec<u8> = Vec::new();
    v.push(108);
    v.push(105);
    v.push(110);
    v.push(117);
    v.push(120);
    v.push(44);
    v.push(105);
    v.push(110);
    v.push(105);
    v.push(116);
    v.push(114);
    v.push(100);
    v.push(45);
    v.push(101);
    v.push(110);
    v.push(100);
    v
}

pub open spec fn name_width() -> Seq<u8> {
    seq![119u8, 105u8, 100u8, 116u8, 104u8]
}

fn bytes_width() -> (r: Vec<u8>)
    ensures
        r@ == name_width(),
{
    let mut v: Vec<u8> = Vec::new();
    v.push(119);
    v.push(105);
    v.push(100);
    v.push(116);
    v.push(104);
    v
}

pub open spec fn name_height() -> Seq<u8> {
    seq![104u8, 101u8, 105u8, 103u8, 104u8, 116u8]
}

fn bytes_height() -> (r: Vec<u8>)
    ensures
        r@ == name_height(),
{
    let mut v: Vec<u8> = Vec::new();
    v.push(104);
    v.push(101);
    v.push(105);
    v.push(103);
    v.push(104);
    v.push(116);
    v
}

pub open spec fn name_stride() -> Seq<u8> {
    seq![115u8, 116u8, 114u8, 105u8, 100u8, 101u8]
}

fn bytes_stride() -> (r: Vec<u8>)
    ensures
        r@ == name_stride(),
{
    let mut v: Vec<u8> = Vec::new();
    v.push(115);
    v.push(116);
    v.push(114);
    v.push(105);
    v.push(100);
    v.push(101);
    v
}

pub open spec fn name_format() -> Seq<u8> {
    seq![102u8, 111u8, 114u8, 109u8, 97u8, 116u8]
}

fn bytes_format() -> (r: Vec<u8>)
    ensures
        r@ == name_format(),
{
    let mut v: Vec<u8> = Vec::new();
    v.push(102);
    v.push(111);
    v.push(114);
    v.push(109);
    v.push(97);
    v.push(116);
    v
}

pub open spec fn name_rgba() -> Seq<u8> {
    seq![114u8, 56u8, 103u8, 56u8, 98u8, 56u8, 97u8, 56u8]
}

fn bytes_rgba() -> (r: Vec<u8>)
    ensures
        r@ == name_rgba(),
{
    let mut v: Vec<u8> = Vec::new();
    v.push(114);
    v.push(56);
    v.push(103);
    v.push(56);
    v.push(98);
    v.push(56);
    v.push(97);
    v.push(56);
    v
}

pub open spec fn node_kind_of(b: Seq<u8>, at: int) -> NodeKind {
    if string_eq_at(b, at, name_chosen()) {
        NodeKind::Chosen
    } else if byte_or_zero(b, at) == 109 && starts_with_at(b, at, name_memory()) {
        NodeKind::Memory
    } else if starts_with_at(b, at, name_simple_framebuffer()) {
        NodeKind::SimpleFramebuffer
    } else {
        NodeKind::Other
    }
}

fn node_kind(bytes: &[u8], at: usize) -> (r: (usize, NodeKind))
    ensures
        r.0 == name_len(bytes@, at as int, 0),
        r.1 == node_kind_of(bytes@, at as int),
        r.0 <= 256,
{
    let _n = bytes.len();
    let mut len: usize = 0;
    while len < 256 && (at <= usize::MAX - len && byte_at(bytes, at + len) != 0)
        invariant
            len <= 256,
            bytes@.len() <= usize::MAX,
            name_len(bytes@, at as int, 0) == name_len(bytes@, at as int, len as int),
        decreases 256 - len,
    {
        len = len + 1;
    }
    proof {
        if len < 256 && at > usize::MAX - len {
            assert(byte_or_zero(bytes@, at + len) == 0);
        }
    }
    let kind = if string_eq_bytes(bytes, at, bytes_chosen().as_slice()) {
        NodeKind::Chosen
    } else if byte_at(bytes, at) == 109 && starts_with_bytes(bytes, at, bytes_memory().as_slice()) {
        NodeKind::Memory
    } else if starts_with_bytes(bytes, at, bytes_simple_framebuffer().as_slice()) {
        NodeKind::SimpleFramebuffer
    } else {
        NodeKind::Other
    };
    (len, kind)
}

/// `cells` big-endian 32-bit cells (one or two) at `at`, within `length` bytes.
pub open spec fn read_cells_spec(b: Seq<u8>, at: int, length: int, cells: int) -> Option<u64> {
    if cells == 0 || cells > 2 || length < cells * 4 {
        None
    } else if cells == 1 {
        match be32(b, at) {
            Some(v) => Some(v as u64),
            None => None,
        }
    } else {
        match (be32(b, at), be32(b, at + 4)) {
            (Some(high), Some(low)) => Some((high * 0x1_0000_0000 + low) as u64),
            _ => None,
        }
    }
}

pub fn read_cells(bytes: &[u8], at: usize, length: usize, cells: usize) -> (r: Option<u64>)
    ensures
        r == read_cells_spec(bytes@, at as int, length as int, cells as int),
{
    let _n = bytes.len();
    if cells == 0 || cells > 2 || length < cells * 4 {
        return None;
    }
    let high = match read_be32(bytes, at) {
        Some(v) => v,
        None => return None,
    };
    if cells == 1 {
        return Some(high as u64);
    }
    if at > usize::MAX - 4 {
        assert(be32(bytes@, at + 4) is None);
        return None;
    }
    let low = match read_be32(bytes, at + 4) {
        Some(v) => v,
        None => return None,
    };
    Some((high as u64) * 0x1_0000_0000 + low as u64)
}

/// The bytes at `at` up to `size` (at most `capacity`, zero past the end), with
/// trailing zero bytes removed.
pub open spec fn trimmed(b: Seq<u8>, at: int, size: int, capacity: int) -> Seq<u8> {
    let copied = vstd::math::min(size, capacity);
    trim_zeros(Seq::new(copied as nat, |k: int| byte_or_zero(b, at + k)))
}

pub open spec fn trim_zeros(s: Seq<u8>) -> Seq<u8>
    decreases s.len(),
{
    if s.len() == 0 {
        s
    } else if s.last() == 0 {
        trim_zeros(s.drop_last())
    } else {
        s
    }
}

fn copy_trimmed(bytes: &[u8], at: usize, size: usize, capacity: usize) -> (r: Vec<u8>)
    requires
        capacity <= 256,
    ensures
        r@ == trimmed(bytes@, at as int, size as int, capacity as int),
{
    let copied = if size < capacity {
        size
    } else {
        capacity
    };
    let _n = bytes.len();
    let mut out: Vec<u8> = Vec::new();
    let mut k: usize = 0;
    while k < copied
        invariant
            k <= copied,
            copied <= 256,
            bytes@.len() <= usize::MAX,
            out@ == Seq::new(k as nat, |j: int| byte_or_zero(bytes@, at + j)),
        decreases copied - k,
    {
        let byte = if at > usize::MAX - k {
            0
        } else {
            byte_at(bytes, at + k)
        };
        out.push(byte);
        proof {
            assert(out@ =~= Seq::new((k + 1) as nat, |j: int| byte_or_zero(bytes@, at + j)));
        }
        k = k + 1;
    }
    let ghost full = out@;
    while out.len() > 0 && out[out.len() - 1] == 0
        invariant
            trim_zeros(full) == trim_zeros(out@),
        decreases out@.len(),
    {
        out.pop();
    }
    out
}


/// `v` rounded up to a multiple of four.
pub open spec fn align4(v: int) -> int {
    (v + 3) / 4 * 4
}

/// The memory ranges of a `reg` property from `offset` on: each entry is
/// `address_cells` then `size_cells` big-endian cells.
pub open spec fn reg_entries(
    b: Seq<u8>,
    data: int,
    length: int,
    address_cells: int,
    size_cells: int,
    offset: int,
    memory: Seq<MemoryRegion>,
) -> Option<Seq<MemoryRegion>>
    decreases length - offset,
{
    let entry_bytes = (address_cells + size_cells) * 4;
    if offset >= length || entry_bytes <= 0 {
        Some(memory)
    } else {
        match (
            read_cells_spec(b, data + offset, address_cells * 4, address_cells),
            read_cells_spec(b, data + offset + address_cells * 4, size_cells * 4, size_cells),
        ) {
            (Some(base), Some(size)) => {
                let next = region_added(memory, MAX_MEMORY_REGIONS as int, base, size);
                if offset + entry_bytes >= length {
                    Some(next)
                } else {
                    reg_entries(b, data, length, address_cells, size_cells, offset + entry_bytes, next)
                }
            },
            _ => None,
        }
    }
}

/// What a `reg` property of a memory node adds, or `None` when it is malformed.
pub open spec fn parse_reg_spec(
    b: Seq<u8>,
    data: int,
    length: int,
    address_cells: int,
    size_cells: int,
    memory: Seq<MemoryRegion>,
) -> Option<Seq<MemoryRegion>> {
    let entry_cells = address_cells + size_cells;
    if entry_cells * 4 > usize::MAX || entry_cells == 0 || length % (entry_cells * 4) != 0 {
        None
    } else {
        reg_entries(b, data, length, address_cells, size_cells, 0, memory)
    }
}

/// What the device-tree walk has gathered: where it is, the open nodes' kinds,
/// the cell sizes, memory, command line, initial ramdisk and framebuffer.
pub struct FdtScan {
    pub cursor: int,
    pub depth: int,
    pub nodes: Seq<NodeKind>,
    pub memory: Seq<MemoryRegion>,
    pub cmdline: Seq<u8>,
    pub address_cells: int,
    pub size_cells: int,
    pub initrd_start: u64,
    pub initrd_end: u64,
    pub fb_base: u64,
    pub fb_size: u64,
    pub fb_width: u64,
    pub fb_height: u64,
    pub fb_stride: u64,
    pub fb_format: Seq<u8>,
}

pub open spec fn depth_slot(depth: int) -> int {
    if depth < FDT_DEPTH_SLOTS - 1 {
        depth
    } else {
        FDT_DEPTH_SLOTS - 1
    }
}

/// A property named at `name` with `length` bytes at `data`, applied to the scan;
/// `None` when it is malformed.
pub open spec fn fdt_prop(b: Seq<u8>, scan: FdtScan, name: int, data: int, length: int) -> Option<FdtScan> {
    let kind = scan.nodes[depth_slot(scan.depth)];
    if scan.depth == 1 && string_eq_at(b, name, name_address_cells()) {
        match be32(b, data) {
            Some(v) => Some(FdtScan { address_cells: v, ..scan }),
            None => None,
        }
    } else if scan.depth == 1 && string_eq_at(b, name, name_size_cells()) {
        match be32(b, data) {
            Some(v) => Some(FdtScan { size_cells: v, ..scan }),
            None => None,
        }
    } else if kind == NodeKind::Memory && string_eq_at(b, name, name_reg()) {
        match parse_reg_spec(b, data, length, scan.address_cells, scan.size_cells, scan.memory) {
            Some(memory) => Some(FdtScan { memory, ..scan }),
            None => None,
        }
    } else if kind == NodeKind::Chosen && string_eq_at(b, name, name_bootargs()) {
        Some(FdtScan { cmdline: trimmed(b, data, length, CMDLINE_MAX as int), ..scan })
    } else if kind == NodeKind::Chosen && string_eq_at(b, name, name_initrd_start()) {
        match read_cells_spec(b, data, length, scan.size_cells) {
            Some(v) => Some(FdtScan { initrd_start: v, ..scan }),
            None => None,
        }
    } else if kind == NodeKind::Chosen && string_eq_at(b, name, name_initrd_end()) {
        match read_cells_spec(b, data, length, scan.size_cells) {
            Some(v) => Some(FdtScan { initrd_end: v, ..scan }),
            None => None,
        }
    } else if kind == NodeKind::SimpleFramebuffer && string_eq_at(b, name, name_reg()) {
        let offset = scan.address_cells * 4;
        match read_cells_spec(b, data, length, scan.address_cells) {
            None => None,
            Some(base) => if offset > usize::MAX || length < offset {
                None
            } else {
                match read_cells_spec(b, data + offset, length - offset, scan.size_cells) {
                    None => None,
                    Some(size) => Some(FdtScan { fb_base: base, fb_size: size, ..scan }),
                }
            },
        }
    } else if kind == NodeKind::SimpleFramebuffer && string_eq_at(b, name, name_width()) {
        match be32(b, data) {
            Some(v) => Some(FdtScan { fb_width: v as u64, ..scan }),
            None => None,
        }
    } else if kind == NodeKind::SimpleFramebuffer && string_eq_at(b, name, name_height()) {
        match be32(b, data) {
            Some(v) => Some(FdtScan { fb_height: v as u64, ..scan }),
            None => None,
        }
    } else if kind == NodeKind::SimpleFramebuffer && string_eq_at(b, name, name_stride()) {
        match be32(b, data) {
            Some(v) => Some(FdtScan { fb_stride: v as u64, ..scan }),
            None => None,
        }
    } else if kind == NodeKind::SimpleFramebuffer && string_eq_at(b, name, name_format()) {
        Some(FdtScan { fb_format: trimmed(b, data, length, 16), ..scan })
    } else {
        Some(scan)
    }
}

pub enum FdtStep {
    Fail,
    Done(FdtScan),
    Next(FdtScan),
}

/// One structure token at the scan's cursor.
#[verifier::opaque]
pub open spec fn fdt_step(b: Seq<u8>, scan: FdtScan, structure_end: int, strings: int, strings_end: int) -> FdtStep {
    match be32(b, scan.cursor) {
        None => FdtStep::Fail,
        Some(token) => {
            let cursor = scan.cursor + 4;
            if token == 1 {
                let len = name_len(b, cursor, 0);
                let kind = node_kind_of(b, cursor);
                if cursor + len + 1 + 3 > usize::MAX || scan.depth + 1 > usize::MAX {
                    FdtStep::Fail
                } else {
                    let depth = scan.depth + 1;
                    FdtStep::Next(
                        FdtScan {
                            cursor: align4(cursor + len + 1),
                            depth,
                            nodes: scan.nodes.update(depth_slot(depth), kind),
                            ..scan
                        },
                    )
                }
            } else if token == 2 {
                if scan.depth == 0 {
                    FdtStep::Fail
                } else {
                    FdtStep::Next(FdtScan { cursor, depth: scan.depth - 1, ..scan })
                }
            } else if token == 3 {
                match (be32(b, cursor), be32(b, cursor + 4)) {
                    (Some(length), Some(name_offset)) => {
                        let data = cursor + 8;
                        if data + length + 3 > usize::MAX {
                            FdtStep::Fail
                        } else {
                            let next = align4(data + length);
                            if next > structure_end || strings + name_offset >= strings_end {
                                FdtStep::Fail
                            } else {
                                match fdt_prop(b, FdtScan { cursor: next, ..scan }, strings + name_offset, data, length) {
                                    None => FdtStep::Fail,
                                    Some(after) => FdtStep::Next(after),
                                }
                            }
                        }
                    },
                    _ => FdtStep::Fail,
                }
            } else if token == 4 {
                FdtStep::Next(FdtScan { cursor, ..scan })
            } else if token == 9 {
                FdtStep::Done(FdtScan { cursor, ..scan })
            } else {
                FdtStep::Fail
            }
        },
    }
}

/// The walk over the structure block from the scan's cursor: until the end token or
/// the end of the block; `None` when a token is malformed.
pub open spec fn fdt_walk(b: Seq<u8>, scan: FdtScan, structure_end: int, strings: int, strings_end: int) -> Option<
    FdtScan,
>
    decreases structure_end - scan.cursor,
{
    match fdt_step(b, scan, structure_end, strings, strings_end) {
        FdtStep::Fail => None,
        FdtStep::Done(after) => Some(after),
        FdtStep::Next(after) => if after.cursor >= structure_end {
            Some(after)
        } else if after.cursor <= scan.cursor {
            None
        } else {
            fdt_walk(b, after, structure_end, strings, strings_end)
        },
    }
}


/// The device-tree walk's state.
pub struct FdtState {
    pub cursor: usize,
    pub depth: usize,
    pub nodes: Vec<NodeKind>,
    pub info: BootInfo,
    pub address_cells: usize,
    pub size_cells: usize,
    pub initrd_start: u64,
    pub initrd_end: u64,
    pub fb_base: u64,
    pub fb_size: u64,
    pub fb_width: u64,
    pub fb_height: u64,
    pub fb_stride: u64,
    pub fb_format: Vec<u8>,
}

impl FdtState {
    pub open spec fn wf(&self) -> bool {
        self.nodes@.len() == FDT_DEPTH_SLOTS && self.info.wf() && self.info.architecture
            == Architecture::Aarch64 && self.info.framebuffer is None
    }

    pub open spec fn view(&self) -> FdtScan {
        FdtScan {
            cursor: self.cursor as int,
            depth: self.depth as int,
            nodes: self.nodes@,
            memory: self.info.memory@,
            cmdline: self.info.cmdline@,
            address_cells: self.address_cells as int,
            size_cells: self.size_cells as int,
            initrd_start: self.initrd_start,
            initrd_end: self.initrd_end,
            fb_base: self.fb_base,
            fb_size: self.fb_size,
            fb_width: self.fb_width,
            fb_height: self.fb_height,
            fb_stride: self.fb_stride,
            fb_format: self.fb_format@,
        }
    }
}

/// Records the memory ranges of a `reg` property; false when it is malformed.
fn parse_reg(bytes: &[u8], info: &mut BootInfo, data: usize, length: usize, address_cells: usize, size_cells: usize) -> (r: bool)
    requires
        old(info).wf(),
    ensures
        final(info).wf(),
        *final(info) == (BootInfo { memory: final(info).memory, ..*old(info) }),
        match parse_reg_spec(bytes@, data as int, length as int, address_cells as int, size_cells as int, old(info).memory@) {
            None => !r,
            Some(memory) => r && final(info).memory@ == memory,
        },
{
    let entry_cells = match address_cells.checked_add(size_cells) {
        Some(c) => c,
        None => return false,
    };
    let entry_bytes = match entry_cells.checked_mul(4) {
        Some(c) => c,
        None => return false,
    };
    if entry_cells == 0 || entry_bytes == 0 || length % entry_bytes != 0 {
        return false;
    }
    let _n = bytes.len();
    let mut offset: usize = 0;
    while offset < length
        invariant
            info.wf(),
            bytes@.len() <= usize::MAX,
            *info == (BootInfo { memory: info.memory, ..*old(info) }),
            entry_bytes == (address_cells + size_cells) * 4,
            entry_bytes > 0,
            length % entry_bytes == 0,
            offset % entry_bytes == 0,
            offset <= length,
            parse_reg_spec(bytes@, data as int, length as int, address_cells as int, size_cells as int, old(info).memory@)
                == (if offset >= length {
                Some(info.memory@)
            } else {
                reg_entries(bytes@, data as int, length as int, address_cells as int, size_cells as int, offset as int, info.memory@)
            }),
        decreases length - offset,
    {
        if data > usize::MAX - offset {
            assert(be32(bytes@, data + offset) is None);
            return false;
        }
        let at = data + offset;
        let base = match address_cells.checked_mul(4) {
            None => return false,
            Some(span) => match read_cells(bytes, at, span, address_cells) {
                None => return false,
                Some(v) => v,
            },
        };
        let size_at = match at.checked_add(address_cells * 4) {
            None => {
                assert(read_cells_spec(bytes@, at + address_cells * 4, size_cells * 4, size_cells as int) is None) by {
                    assert(be32(bytes@, at + address_cells * 4) is None);
                }
                return false;
            },
            Some(v) => v,
        };
        let size = match size_cells.checked_mul(4) {
            None => return false,
            Some(span) => match read_cells(bytes, size_at, span, size_cells) {
                None => return false,
                Some(v) => v,
            },
        };
        info.add_memory(base, size);
        proof {
            assert((offset + entry_bytes) % (entry_bytes as int) == 0) by (nonlinear_arith)
                requires
                    offset % entry_bytes == 0,
                    entry_bytes > 0,
            ;
            assert(offset + entry_bytes <= length) by (nonlinear_arith)
                requires
                    offset % entry_bytes == 0,
                    length % entry_bytes == 0,
                    offset < length,
                    entry_bytes > 0,
            ;
        }
        offset = offset + entry_bytes;
    }
    true
}


proof fn lemma_trim_zeros_len(s: Seq<u8>)
    ensures
        trim_zeros(s).len() <= s.len(),
    decreases s.len(),
{
    if s.len() > 0 && s.last() == 0 {
        lemma_trim_zeros_len(s.drop_last());
    }
}

fn depth_slot_of(depth: usize) -> (r: usize)
    ensures
        r == depth_slot(depth as int),
        r < FDT_DEPTH_SLOTS,
{
    if depth < FDT_DEPTH_SLOTS - 1 {
        depth
    } else {
        FDT_DEPTH_SLOTS - 1
    }
}

/// Applies the property named at `name`, with `length` bytes at `data`, to the walk;
/// false when the property is malformed.
fn fdt_property(bytes: &[u8], state: &mut FdtState, name: usize, data: usize, length: usize) -> (r: bool)
    requires
        old(state).wf(),
    ensures
        final(state).wf(),
        final(state).info.reserved@ == old(state).info.reserved@,
        final(state).info.modules@ == old(state).info.modules@,
        final(state).info.handoff_address == old(state).info.handoff_address,
        final(state).info.efi_system_table == old(state).info.efi_system_table,
        final(state).info.efi_runtime_el == old(state).info.efi_runtime_el,
        final(state).info.efi_runtime_vbar == old(state).info.efi_runtime_vbar,
        final(state).info.efi_runtime_sp_el0 == old(state).info.efi_runtime_sp_el0,
        match fdt_prop(bytes@, old(state)@, name as int, data as int, length as int) {
            None => !r,
            Some(after) => r && final(state)@ == after,
        },
{
    let _n = bytes.len();
    let kind = state.nodes[depth_slot_of(state.depth)];
    if state.depth == 1 && string_eq_bytes(bytes, name, bytes_address_cells().as_slice()) {
        match read_be32(bytes, data) {
            Some(v) => {
                state.address_cells = v as usize;
                true
            },
            None => false,
        }
    } else if state.depth == 1 && string_eq_bytes(bytes, name, bytes_size_cells().as_slice()) {
        match read_be32(bytes, data) {
            Some(v) => {
                state.size_cells = v as usize;
                true
            },
            None => false,
        }
    } else if kind == NodeKind::Memory && string_eq_bytes(bytes, name, bytes_reg().as_slice()) {
        parse_reg(bytes, &mut state.info, data, length, state.address_cells, state.size_cells)
    } else if kind == NodeKind::Chosen && string_eq_bytes(bytes, name, bytes_bootargs().as_slice()) {
        let cmdline = copy_trimmed(bytes, data, length, CMDLINE_MAX);
        proof {
            lemma_trim_zeros_len(
                Seq::new(
                    vstd::math::min(length as int, CMDLINE_MAX as int) as nat,
                    |k: int| byte_or_zero(bytes@, data + k),
                ),
            );
        }
        state.info.cmdline = cmdline;
        true
    } else if kind == NodeKind::Chosen && string_eq_bytes(bytes, name, bytes_initrd_start().as_slice()) {
        match read_cells(bytes, data, length, state.size_cells) {
            Some(v) => {
                state.initrd_start = v;
                true
            },
            None => false,
        }
    } else if kind == NodeKind::Chosen && string_eq_bytes(bytes, name, bytes_initrd_end().as_slice()) {
        match read_cells(bytes, data, length, state.size_cells) {
            Some(v) => {
                state.initrd_end = v;
                true
            },
            None => false,
        }
    } else if kind == NodeKind::SimpleFramebuffer && string_eq_bytes(bytes, name, bytes_reg().as_slice()) {
        let base = match read_cells(bytes, data, length, state.address_cells) {
            Some(v) => v,
            None => return false,
        };
        let offset = match state.address_cells.checked_mul(4) {
            Some(v) => v,
            None => return false,
        };
        if length < offset {
            return false;
        }
        if data > usize::MAX - offset {
            assert(be32(bytes@, data + offset) is None);
            return false;
        }
        let size = match read_cells(bytes, data + offset, length - offset, state.size_cells) {
            Some(v) => v,
            None => return false,
        };
        state.fb_base = base;
        state.fb_size = size;
        true
    } else if kind == NodeKind::SimpleFramebuffer && string_eq_bytes(bytes, name, bytes_width().as_slice()) {
        match read_be32(bytes, data) {
            Some(v) => {
                state.fb_width = v as u64;
                true
            },
            None => false,
        }
    } else if kind == NodeKind::SimpleFramebuffer && string_eq_bytes(bytes, name, bytes_height().as_slice()) {
        match read_be32(bytes, data) {
            Some(v) => {
                state.fb_height = v as u64;
                true
            },
            None => false,
        }
    } else if kind == NodeKind::SimpleFramebuffer && string_eq_bytes(bytes, name, bytes_stride().as_slice()) {
        match read_be32(bytes, data) {
            Some(v) => {
                state.fb_stride = v as u64;
                true
            },
            None => false,
        }
    } else if kind == NodeKind::SimpleFramebuffer && string_eq_bytes(bytes, name, bytes_format().as_slice()) {
        state.fb_format = copy_trimmed(bytes, data, length, 16);
        true
    } else {
        true
    }
}


/// What one structure token did to the walk.
enum TokenOutcome {
    Malformed,
    End,
    Continue,
}

fn align_up4(v: usize) -> (r: usize)
    requires
        v + 3 <= usize::MAX,
    ensures
        r == align4(v as int),
        v <= r,
{
    proof {
        assert((v + 3) / 4 * 4 <= v + 3 && v <= (v + 3) / 4 * 4) by (nonlinear_arith);
    }
    (v + 3) / 4 * 4
}

/// Reads the structure token at the walk's cursor and applies it.
fn fdt_token(bytes: &[u8], state: &mut FdtState, structure_end: usize, strings: usize, strings_end: usize) -> (r:
    TokenOutcome)
    requires
        old(state).wf(),
        strings <= strings_end,
    ensures
        final(state).wf(),
        final(state).info.reserved@ == old(state).info.reserved@,
        final(state).info.modules@ == old(state).info.modules@,
        final(state).info.handoff_address == old(state).info.handoff_address,
        final(state).info.efi_system_table == old(state).info.efi_system_table,
        final(state).info.efi_runtime_el == old(state).info.efi_runtime_el,
        final(state).info.efi_runtime_vbar == old(state).info.efi_runtime_vbar,
        final(state).info.efi_runtime_sp_el0 == old(state).info.efi_runtime_sp_el0,
        match fdt_step(bytes@, old(state)@, structure_end as int, strings as int, strings_end as int) {
            FdtStep::Fail => r is Malformed,
            FdtStep::Done(after) => r is End && final(state)@ == after,
            FdtStep::Next(after) => r is Continue && final(state)@ == after,
        },
{
    reveal(fdt_step);
    let _n = bytes.len();
    let token = match read_be32(bytes, state.cursor) {
        Some(t) => t,
        None => return TokenOutcome::Malformed,
    };
    let cursor = state.cursor + 4;
    if token == 1 {
        let (len, kind) = node_kind(bytes, cursor);
        if cursor > usize::MAX - 4 - len || state.depth == usize::MAX {
            return TokenOutcome::Malformed;
        }
        state.cursor = align_up4(cursor + len + 1);
        state.depth = state.depth + 1;
        let slot = depth_slot_of(state.depth);
        state.nodes.set(slot, kind);
        TokenOutcome::Continue
    } else if token == 2 {
        if state.depth == 0 {
            return TokenOutcome::Malformed;
        }
        state.depth = state.depth - 1;
        state.cursor = cursor;
        TokenOutcome::Continue
    } else if token == 3 {
        let length = match read_be32(bytes, cursor) {
            Some(v) => v as usize,
            None => return TokenOutcome::Malformed,
        };
        let name_offset = match read_be32(bytes, cursor + 4) {
            Some(v) => v as usize,
            None => return TokenOutcome::Malformed,
        };
        let data = cursor + 8;
        if length > usize::MAX - 3 || data > usize::MAX - 3 - length {
            return TokenOutcome::Malformed;
        }
        let next = align_up4(data + length);
        if next > structure_end || name_offset >= strings_end - strings {
            return TokenOutcome::Malformed;
        }
        state.cursor = next;
        if fdt_property(bytes, state, strings + name_offset, data, length) {
            TokenOutcome::Continue
        } else {
            TokenOutcome::Malformed
        }
    } else if token == 4 {
        state.cursor = cursor;
        TokenOutcome::Continue
    } else if token == 9 {
        state.cursor = cursor;
        TokenOutcome::End
    } else {
        TokenOutcome::Malformed
    }
}


/// Where the blocks of a device-tree blob lie, as offsets into it.
pub struct FdtLayout {
    pub total: int,
    pub structure: int,
    pub structure_end: int,
    pub strings: int,
    pub strings_end: int,
}

/// The layout of the device tree in `b`, placed at `address`, when its header is sound:
/// the magic number, a total size from 40 bytes up to the limit that the bytes hold and
/// whose end fits in an address, and structure and strings blocks inside it.
pub open spec fn fdt_layout(b: Seq<u8>, address: int) -> Option<FdtLayout> {
    match (be32(b, 0), be32(b, 4), be32(b, 8), be32(b, 12), be32(b, 32), be32(b, 36)) {
        (Some(magic), Some(total), Some(structure), Some(strings), Some(strings_size), Some(structure_size)) => {
            if magic == FDT_MAGIC && 40 <= total <= MAX_FDT_SIZE && total <= b.len() && address + total
                <= usize::MAX && structure + structure_size <= total && strings + strings_size <= total {
                Some(
                    FdtLayout {
                        total,
                        structure,
                        structure_end: structure + structure_size,
                        strings,
                        strings_end: strings + strings_size,
                    },
                )
            } else {
                None
            }
        },
        _ => None,
    }
}

/// The walk's state before the first token: at the structure block, outside any node,
/// with two-cell addresses and sizes and nothing found.
pub open spec fn fdt_initial(structure: int) -> FdtScan {
    FdtScan {
        cursor: structure,
        depth: 0,
        nodes: Seq::new(FDT_DEPTH_SLOTS as nat, |k: int| NodeKind::Other),
        memory: Seq::empty(),
        cmdline: Seq::empty(),
        address_cells: 2,
        size_cells: 2,
        initrd_start: 0,
        initrd_end: 0,
        fb_base: 0,
        fb_size: 0,
        fb_width: 0,
        fb_height: 0,
        fb_stride: 0,
        fb_format: Seq::empty(),
    }
}

/// The framebuffer a `simple-framebuffer` node describes, when it has a base and a size
/// and its rows fit in that size; `r8g8b8a8` formats are RGB, the rest BGR.
pub open spec fn fdt_framebuffer(scan: FdtScan) -> Option<RawFramebuffer> {
    if scan.fb_base == 0 || scan.fb_size == 0 {
        None
    } else {
        let format = if scan.fb_format.len() >= 8 && scan.fb_format.subrange(0, 8) == name_rgba() {
            PixelFormat::Rgb
        } else {
            PixelFormat::Bgr
        };
        match spec_framebuffer(scan.fb_base, scan.fb_stride, scan.fb_width, scan.fb_height, 32, format) {
            Some(fb) => if fb.size <= scan.fb_size {
                Some(fb)
            } else {
                None
            },
            None => None,
        }
    }
}

/// The initial ramdisk as a module, when the chosen node gave a non-empty range.
pub open spec fn fdt_modules(scan: FdtScan) -> Seq<Module> {
    if scan.initrd_end > scan.initrd_start {
        seq![Module { start: scan.initrd_start, end: scan.initrd_end }]
    } else {
        Seq::empty()
    }
}

/// The reserved ranges after the walk: the ramdisk, the framebuffer, the blob itself
/// and the kernel image, in that order.
pub open spec fn fdt_reserved(scan: FdtScan, address: int, total: int, kernel: (u64, u64)) -> Seq<MemoryRegion> {
    let limit = MAX_RESERVED_REGIONS as int;
    let with_initrd = if scan.initrd_end > scan.initrd_start {
        region_added(Seq::empty(), limit, scan.initrd_start, (scan.initrd_end - scan.initrd_start) as u64)
    } else {
        Seq::empty()
    };
    let with_fb = match fdt_framebuffer(scan) {
        Some(fb) => region_added(with_initrd, limit, fb.base, fb.size as u64),
        None => with_initrd,
    };
    let with_blob = region_added(with_fb, limit, address as u64, total as u64);
    if kernel.1 > kernel.0 {
        region_added(with_blob, limit, kernel.0, (kernel.1 - kernel.0) as u64)
    } else {
        with_blob
    }
}

fn has_prefix(s: &[u8], prefix: &[u8]) -> (r: bool)
    ensures
        r == (s@.len() >= prefix@.len() && s@.subrange(0, prefix@.len() as int) == prefix@),
{
    if s.len() < prefix.len() {
        return false;
    }
    let mut k: usize = 0;
    while k < prefix.len()
        invariant
            k <= prefix@.len() <= s@.len(),
            forall|j: int| 0 <= j < k ==> s@[j] == prefix@[j],
        decreases prefix@.len() - k,
    {
        if s[k] != prefix[k] {
            assert(s@.subrange(0, prefix@.len() as int)[k as int] != prefix@[k as int]);
            return false;
        }
        k = k + 1;
    }
    assert(s@.subrange(0, prefix@.len() as int) =~= prefix@);
    true
}


/// The boot information in the device tree that `bytes` holds, placed at `address`;
/// `kernel` is the kernel image's range. `None` when the header is unsound, a token is
/// malformed, or no memory is described.
pub fn parse_fdt(bytes: &[u8], address: usize, kernel: (u64, u64)) -> (r: Option<BootInfo>)
    ensures
        match fdt_layout(bytes@, address as int) {
            None => r is None,
            Some(layout) => match fdt_walk(
                bytes@,
                fdt_initial(layout.structure),
                layout.structure_end,
                layout.strings,
                layout.strings_end,
            ) {
                None => r is None,
                Some(scan) => if scan.memory.len() == 0 {
                    r is None
                } else {
                    r matches Some(info) && {
                        &&& info.wf()
                        &&& info.architecture == Architecture::Aarch64
                        &&& info.memory@ == scan.memory
                        &&& info.cmdline@ == scan.cmdline
                        &&& info.modules@ == fdt_modules(scan)
                        &&& info.framebuffer == fdt_framebuffer(scan)
                        &&& info.reserved@ == fdt_reserved(scan, address as int, layout.total, kernel)
                        &&& info.handoff_address == address
                        &&& info.efi_system_table == 0
                        &&& info.efi_runtime_el == 0 && info.efi_runtime_vbar == 0 && info.efi_runtime_sp_el0 == 0
                    }
                },
            },
        },
{
    let magic = match read_be32(bytes, 0) {
        Some(v) => v,
        None => return None,
    };
    let total = match read_be32(bytes, 4) {
        Some(v) => v as usize,
        None => return None,
    };
    if magic != FDT_MAGIC || total < 40 || total > MAX_FDT_SIZE || total > bytes.len() {
        return None;
    }
    let structure = read_be32(bytes, 8).unwrap() as usize;
    let strings = read_be32(bytes, 12).unwrap() as usize;
    let strings_size = read_be32(bytes, 32).unwrap() as usize;
    let structure_size = read_be32(bytes, 36).unwrap() as usize;
    if address > usize::MAX - total || structure > total || structure_size > total - structure
        || strings > total || strings_size > total - strings {
        return None;
    }
    let structure_end = structure + structure_size;
    let strings_end = strings + strings_size;
    let ghost layout = FdtLayout { total: total as int, structure: structure as int, structure_end: structure_end as int, strings: strings as int, strings_end: strings_end as int };
    assert(fdt_layout(bytes@, address as int) == Some(layout));

    let mut nodes: Vec<NodeKind> = Vec::new();
    while nodes.len() < FDT_DEPTH_SLOTS
        invariant
            nodes@.len() <= FDT_DEPTH_SLOTS,
            forall|k: int| 0 <= k < nodes@.len() ==> nodes@[k] == NodeKind::Other,
        decreases FDT_DEPTH_SLOTS - nodes@.len(),
    {
        nodes.push(NodeKind::Other);
    }
    let mut state = FdtState {
        cursor: structure,
        depth: 0,
        nodes,
        info: BootInfo::empty(Architecture::Aarch64),
        address_cells: 2,
        size_cells: 2,
        initrd_start: 0,
        initrd_end: 0,
        fb_base: 0,
        fb_size: 0,
        fb_width: 0,
        fb_height: 0,
        fb_stride: 0,
        fb_format: Vec::new(),
    };
    assert(state@ == fdt_initial(structure as int)) by {
        assert(state.nodes@ =~= Seq::new(FDT_DEPTH_SLOTS as nat, |k: int| NodeKind::Other));
        assert(state.info.memory@ =~= Seq::<MemoryRegion>::empty());
        assert(state.info.cmdline@ =~= Seq::<u8>::empty());
        assert(state.fb_format@ =~= Seq::<u8>::empty());
    }
    let ghost b = bytes@;
    let ghost init = state@;
    loop
        invariant_except_break
            state.cursor <= structure_end,
            fdt_walk(b, init, structure_end as int, strings as int, strings_end as int) == fdt_walk(
                b,
                state@,
                structure_end as int,
                strings as int,
                strings_end as int,
            ),
        invariant
            state.wf(),
            b == bytes@,
            strings <= strings_end,
            fdt_layout(bytes@, address as int) == Some(layout),
            layout.structure == structure && layout.structure_end == structure_end,
            layout.strings == strings && layout.strings_end == strings_end,
            layout.total == total,
            init == fdt_initial(structure as int),
            state.info.reserved@.len() == 0,
            state.info.modules@.len() == 0,
            state.info.handoff_address == 0,
            state.info.efi_system_table == 0,
            state.info.efi_runtime_el == 0 && state.info.efi_runtime_vbar == 0 && state.info.efi_runtime_sp_el0 == 0,
        ensures
            state.wf(),
            fdt_layout(bytes@, address as int) == Some(layout),
            layout.structure == structure && layout.structure_end == structure_end,
            layout.strings == strings && layout.strings_end == strings_end,
            layout.total == total,
            init == fdt_initial(structure as int),
            state.info.reserved@.len() == 0,
            state.info.modules@.len() == 0,
            state.info.handoff_address == 0,
            state.info.efi_system_table == 0,
            state.info.efi_runtime_el == 0 && state.info.efi_runtime_vbar == 0 && state.info.efi_runtime_sp_el0 == 0,
            fdt_walk(b, init, structure_end as int, strings as int, strings_end as int) == Some(state@),
        decreases structure_end - state.cursor,
    {
        let before = state.cursor;
        let ghost scan = state@;
        match fdt_token(bytes, &mut state, structure_end, strings, strings_end) {
            TokenOutcome::Malformed => {
                assert(fdt_walk(b, scan, structure_end as int, strings as int, strings_end as int) is None);
                return None;
            },
            TokenOutcome::End => {
                break;
            },
            TokenOutcome::Continue => {
                if state.cursor >= structure_end {
                    break;
                }
                if state.cursor <= before {
                    assert(fdt_walk(b, scan, structure_end as int, strings as int, strings_end as int) is None);
                    return None;
                }
            },
        }
    }
    let ghost scan = state@;
    if state.info.memory.len() == 0 {
        return None;
    }
    let FdtState { info, initrd_start, initrd_end, fb_base, fb_size, fb_width, fb_height, fb_stride, fb_format, .. } = state;
    let mut info = info;
    assert(info.reserved@ =~= Seq::<MemoryRegion>::empty());
    if initrd_end > initrd_start {
        info.add_module(initrd_start, initrd_end);
        assert(info.modules@ =~= fdt_modules(scan));
    } else {
        assert(info.modules@ =~= fdt_modules(scan));
    }
    if fb_base != 0 && fb_size != 0 {
        let rgba = bytes_rgba();
        let format = if has_prefix(fb_format.as_slice(), rgba.as_slice()) {
            PixelFormat::Rgb
        } else {
            PixelFormat::Bgr
        };
        match framebuffer(fb_base, fb_stride, fb_width, fb_height, 32, format) {
            Some(fb) => {
                if fb.size as u64 <= fb_size {
                    info.add_reserved(fb.base, fb.size as u64);
                    info.framebuffer = Some(fb);
                }
            },
            None => {},
        }
    }
    assert(info.framebuffer == fdt_framebuffer(scan));
    info.handoff_address = address as u64;
    info.add_reserved(address as u64, total as u64);
    if kernel.1 > kernel.0 {
        info.add_reserved(kernel.0, kernel.1 - kernel.0);
    }
    Some(info)
}

/// What one descriptor of an EFI memory map adds: memory the firmware keeps (reserved
/// memory, runtime services code and data, and types 8 and up: unusable, ACPI,
/// memory-mapped I/O, persistent) adds nothing; loader and boot-services code and data
/// (types 1 to 4) and conventional memory (type 7) add their pages.
pub proof fn law_efi_descriptor_types(map: Seq<u8>, offset: int, size: int, memory: Seq<MemoryRegion>)
    requires
        size >= 40,
        0 <= offset,
        offset + size <= map.len(),
    ensures
        ({
            let kind = u32_at(map, offset);
            kind == 0 || kind == 5 || kind == 6 || kind >= 8
        }) ==> efi_regions(map, offset, size, memory) == efi_regions(map, offset + size, size, memory),
        ({
            let kind = u32_at(map, offset);
            kind == 1 || kind == 2 || kind == 3 || kind == 4 || kind == 7
        }) && u64_at(map, offset + 24) * 0x1000 <= u64::MAX ==> efi_regions(map, offset, size, memory)
            == efi_regions(
            map,
            offset + size,
            size,
            region_added(
                memory,
                MAX_MEMORY_REGIONS as int,
                u64_at(map, offset + 8) as u64,
                (u64_at(map, offset + 24) * 0x1000) as u64,
            ),
        ),
{
}

} // verus!
