use lib::boot::{
    add_efi_descriptors, framebuffer, parse_multiboot2, Architecture, BootInfo, MemoryRegion, Module,
    PixelFormat,
};

struct Info {
    bytes: Vec<u8>,
}

impl Info {
    fn new() -> Self {
        let mut bytes = Vec::new();
        bytes.extend_from_slice(&0u32.to_le_bytes());
        bytes.extend_from_slice(&0u32.to_le_bytes());
        Info { bytes }
    }

    fn tag(&mut self, kind: u32, body: &[u8]) {
        let size = 8 + body.len() as u32;
        self.bytes.extend_from_slice(&kind.to_le_bytes());
        self.bytes.extend_from_slice(&size.to_le_bytes());
        self.bytes.extend_from_slice(body);
        while self.bytes.len() % 8 != 0 {
            self.bytes.push(0);
        }
    }

    fn finish(mut self) -> Vec<u8> {
        self.tag(0, &[]);
        let total = self.bytes.len() as u32;
        self.bytes[0..4].copy_from_slice(&total.to_le_bytes());
        self.bytes
    }
}

fn memory_entry(base: u64, length: u64, kind: u32) -> Vec<u8> {
    let mut e = Vec::new();
    e.extend_from_slice(&base.to_le_bytes());
    e.extend_from_slice(&length.to_le_bytes());
    e.extend_from_slice(&kind.to_le_bytes());
    e.extend_from_slice(&0u32.to_le_bytes());
    e
}

fn sample() -> Vec<u8> {
    let mut info = Info::new();
    info.tag(1, b"console=serial\0");
    let mut module = Vec::new();
    module.extend_from_slice(&0x20_0000u32.to_le_bytes());
    module.extend_from_slice(&0x21_0000u32.to_le_bytes());
    info.tag(3, &module);
    let mut map = Vec::new();
    map.extend_from_slice(&24u32.to_le_bytes());
    map.extend_from_slice(&0u32.to_le_bytes());
    map.extend(memory_entry(0x10_0000, 0x100_0000, 1));
    map.extend(memory_entry(0xf000_0000, 0x1000, 2));
    map.extend(memory_entry(0x200_0000, 0x200_0000, 1));
    info.tag(6, &map);
    let mut fb = Vec::new();
    fb.extend_from_slice(&0xfd00_0000u64.to_le_bytes());
    fb.extend_from_slice(&4096u32.to_le_bytes());
    fb.extend_from_slice(&1024u32.to_le_bytes());
    fb.extend_from_slice(&768u32.to_le_bytes());
    fb.push(32);
    fb.push(1);
    fb.extend_from_slice(&[0, 0]);
    fb.extend_from_slice(&[16, 8, 8, 8, 0, 8]);
    info.tag(8, &fb);
    let mut st = Vec::new();
    st.extend_from_slice(&0u32.to_le_bytes());
    st.extend_from_slice(&0x7fe0_0000u64.to_le_bytes());
    info.tag(12, &st[4..]);
    info.tag(20, &0x7fd0_0000u64.to_le_bytes());
    info.finish()
}

#[test]
fn multiboot2_info_is_gathered() {
    let bytes = sample();
    let total = bytes.len() as u64;
    let (info, image_handle) = parse_multiboot2(&bytes, 0x9000, (0x10_0000, 0x18_0000)).unwrap();
    assert_eq!(info.architecture, Architecture::X86_64);
    assert_eq!(info.cmdline, b"console=serial".to_vec());
    assert_eq!(info.cmdline(), "console=serial");
    assert_eq!(info.modules, vec![Module { start: 0x20_0000, end: 0x21_0000 }]);
    assert_eq!(
        info.memory,
        vec![
            MemoryRegion { base: 0x10_0000, length: 0x100_0000 },
            MemoryRegion { base: 0x200_0000, length: 0x200_0000 },
        ]
    );
    let fb = info.framebuffer.unwrap();
    assert_eq!(fb.base, 0xfd00_0000);
    assert_eq!(fb.width, 1024);
    assert_eq!(fb.height, 768);
    assert_eq!(fb.stride, 4096);
    assert_eq!(fb.size, 4096 * 768);
    assert_eq!(fb.bytes_per_pixel, 4);
    assert_eq!(fb.format, PixelFormat::Bgr);
    assert_eq!(info.efi_system_table, 0x7fe0_0000);
    assert_eq!(image_handle, 0x7fd0_0000);
    assert_eq!(info.handoff_address, 0x9000);
    assert_eq!(
        info.reserved,
        vec![
            MemoryRegion { base: 0x20_0000, length: 0x1_0000 },
            MemoryRegion { base: 0xfd00_0000, length: 4096 * 768 },
            MemoryRegion { base: 0x9000, length: total },
            MemoryRegion { base: 0x10_0000, length: 0x8_0000 },
        ]
    );
}

#[test]
fn multiboot2_rejects_bad_sizes() {
    let mut bytes = sample();
    assert!(parse_multiboot2(&bytes[..4], 0, (0, 0)).is_none());
    bytes[0..4].copy_from_slice(&8u32.to_le_bytes());
    assert!(parse_multiboot2(&bytes, 0, (0, 0)).is_none());
    let mut long = sample();
    let too_long = long.len() as u32 + 8;
    long[0..4].copy_from_slice(&too_long.to_le_bytes());
    assert!(parse_multiboot2(&long, 0, (0, 0)).is_none());
    let ok = sample();
    assert!(parse_multiboot2(&ok, u64::MAX - 4, (0, 0)).is_none());
}

#[test]
fn multiboot2_rejects_a_tag_that_overruns() {
    let mut info = Info::new();
    info.tag(1, b"x\0");
    let mut bytes = info.finish();
    bytes[12..16].copy_from_slice(&4u32.to_le_bytes());
    assert!(parse_multiboot2(&bytes, 0, (0, 0)).is_none());
}

#[test]
fn multiboot2_rejects_a_short_memory_map_entry() {
    let mut info = Info::new();
    let mut map = Vec::new();
    map.extend_from_slice(&16u32.to_le_bytes());
    map.extend_from_slice(&0u32.to_le_bytes());
    map.extend(memory_entry(0x10_0000, 0x1000, 1));
    info.tag(6, &map);
    assert!(parse_multiboot2(&info.finish(), 0, (0, 0)).is_none());
}

#[test]
fn multiboot2_without_a_memory_map_leaves_memory_empty() {
    let mut info = Info::new();
    info.tag(1, b"\0");
    let bytes = info.finish();
    let (info, handle) = parse_multiboot2(&bytes, 0x1000, (0, 0)).unwrap();
    assert!(info.memory.is_empty());
    assert!(info.cmdline.is_empty());
    assert_eq!(handle, 0);
    assert_eq!(info.reserved, vec![MemoryRegion { base: 0x1000, length: bytes.len() as u64 }]);
}

#[test]
fn framebuffer_rules() {
    assert!(framebuffer(0, 12, 4, 1, 24, PixelFormat::Rgb).is_none());
    assert!(framebuffer(0x1000, 11, 4, 1, 24, PixelFormat::Rgb).is_none());
    assert!(framebuffer(0x1000, 16, 4, 1, 16, PixelFormat::Rgb).is_none());
    assert!(framebuffer(0x1000, 16, 0, 1, 32, PixelFormat::Rgb).is_none());
    assert!(framebuffer(0x1000, u64::MAX, u64::MAX, 1, 32, PixelFormat::Rgb).is_none());
    let fb = framebuffer(0x1000, 12, 4, 2, 24, PixelFormat::Rgb).unwrap();
    assert_eq!(fb.size, 24);
    assert_eq!(fb.bytes_per_pixel, 3);
    assert_eq!(fb.stride, 12);
}

fn descriptor(kind: u32, base: u64, pages: u64) -> Vec<u8> {
    let mut d = vec![0u8; 48];
    d[0..4].copy_from_slice(&kind.to_le_bytes());
    d[8..16].copy_from_slice(&base.to_le_bytes());
    d[24..32].copy_from_slice(&pages.to_le_bytes());
    d
}

#[test]
fn efi_descriptors_add_usable_memory() {
    let mut map = Vec::new();
    map.extend(descriptor(7, 0x10_0000, 16));
    map.extend(descriptor(5, 0x20_0000, 1));
    map.extend(descriptor(3, 0x40_0000, 2));
    let mut info = BootInfo::empty(Architecture::X86_64);
    assert!(add_efi_descriptors(&mut info, &map, 48));
    assert_eq!(
        info.memory,
        vec![
            MemoryRegion { base: 0x10_0000, length: 0x1_0000 },
            MemoryRegion { base: 0x40_0000, length: 0x2000 },
        ]
    );
    assert!(info.reserved.is_empty());
}

#[test]
fn efi_descriptor_with_too_many_pages_fails() {
    let map = descriptor(7, 0, u64::MAX / 0x100);
    let mut info = BootInfo::empty(Architecture::X86_64);
    assert!(!add_efi_descriptors(&mut info, &map, 48));
}

#[test]
fn cmdline_that_is_not_utf8_reads_empty() {
    let mut info = Info::new();
    info.tag(1, &[0x66, 0xff, 0x6f, 0]);
    let (info, _) = parse_multiboot2(&info.finish(), 0, (0, 0)).unwrap();
    assert_eq!(info.cmdline, vec![0x66, 0xff, 0x6f]);
    assert_eq!(info.cmdline(), "");
}
