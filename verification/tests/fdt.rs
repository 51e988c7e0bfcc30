use lib::boot::{parse_fdt, read_be32, read_cells, Architecture, MemoryRegion, Module, PixelFormat};

struct Tree {
    structure: Vec<u8>,
    strings: Vec<u8>,
}

impl Tree {
    fn new() -> Self {
        Tree { structure: Vec::new(), strings: Vec::new() }
    }
    fn token(&mut self, t: u32) {
        self.structure.extend_from_slice(&t.to_be_bytes());
    }
    fn begin(&mut self, name: &str) {
        self.token(1);
        self.structure.extend_from_slice(name.as_bytes());
        self.structure.push(0);
        while self.structure.len() % 4 != 0 {
            self.structure.push(0);
        }
    }
    fn end(&mut self) {
        self.token(2);
    }
    fn prop(&mut self, name: &str, value: &[u8]) {
        let offset = self.strings.len() as u32;
        self.strings.extend_from_slice(name.as_bytes());
        self.strings.push(0);
        self.token(3);
        self.token(value.len() as u32);
        self.token(offset);
        self.structure.extend_from_slice(value);
        while self.structure.len() % 4 != 0 {
            self.structure.push(0);
        }
    }
    fn blob(mut self) -> Vec<u8> {
        self.token(9);
        let structure_offset = 40u32;
        let strings_offset = structure_offset + self.structure.len() as u32;
        let total = strings_offset + self.strings.len() as u32;
        let mut out = Vec::new();
        for word in [0xd00d_feedu32, total, structure_offset, strings_offset, 0, 17, 16, 0, self.strings.len() as u32, self.structure.len() as u32] {
            out.extend_from_slice(&word.to_be_bytes());
        }
        out.extend_from_slice(&self.structure);
        out.extend_from_slice(&self.strings);
        out
    }
}

fn cells(values: &[u32]) -> Vec<u8> {
    values.iter().flat_map(|v| v.to_be_bytes()).collect()
}

fn sample_tree(with_framebuffer: bool) -> Vec<u8> {
    let mut tree = Tree::new();
    tree.begin("");
    tree.prop("#address-cells", &cells(&[2]));
    tree.prop("#size-cells", &cells(&[2]));
    tree.begin("memory@40000000");
    tree.prop("reg", &cells(&[0, 0x4000_0000, 0, 0x1000_0000]));
    tree.end();
    tree.begin("chosen");
    tree.prop("bootargs", b"console=ttyAMA0\0");
    tree.prop("linux,initrd-start", &cells(&[0, 0x4800_0000]));
    tree.prop("linux,initrd-end", &cells(&[0, 0x4810_0000]));
    tree.end();
    if with_framebuffer {
        tree.begin("simple-framebuffer@50000000");
        tree.prop("compatible", b"simple-framebuffer\0");
        tree.prop("reg", &cells(&[0, 0x5000_0000, 0, 0x0030_0000]));
        tree.prop("width", &cells(&[640]));
        tree.prop("height", &cells(&[480]));
        tree.prop("stride", &cells(&[2560]));
        tree.prop("format", b"r8g8b8a8\0");
        tree.end();
    }
    tree.end();
    tree.blob()
}

#[test]
fn fdt_memory_chosen_and_reservations() {
    let blob = sample_tree(false);
    let info = parse_fdt(&blob, 0x4400_0000, (0x4008_0000, 0x4010_0000)).unwrap();
    assert_eq!(info.architecture, Architecture::Aarch64);
    assert_eq!(info.memory, vec![MemoryRegion { base: 0x4000_0000, length: 0x1000_0000 }]);
    assert_eq!(info.cmdline, b"console=ttyAMA0".to_vec());
    assert_eq!(info.modules, vec![Module { start: 0x4800_0000, end: 0x4810_0000 }]);
    assert_eq!(info.handoff_address, 0x4400_0000);
    assert!(info.framebuffer.is_none());
    assert_eq!(
        info.reserved,
        vec![
            MemoryRegion { base: 0x4800_0000, length: 0x10_0000 },
            MemoryRegion { base: 0x4400_0000, length: blob.len() as u64 },
            MemoryRegion { base: 0x4008_0000, length: 0x8_0000 },
        ]
    );
}

#[test]
fn fdt_simple_framebuffer() {
    let blob = sample_tree(true);
    let info = parse_fdt(&blob, 0x4400_0000, (0, 0)).unwrap();
    let fb = info.framebuffer.unwrap();
    assert_eq!((fb.base, fb.width, fb.height, fb.stride, fb.size), (0x5000_0000, 640, 480, 2560, 2560 * 480));
    assert_eq!(fb.format, PixelFormat::Rgb);
    assert_eq!(info.reserved[1], MemoryRegion { base: 0x5000_0000, length: 2560 * 480 });
}

#[test]
fn fdt_refusals() {
    let blob = sample_tree(false);
    let mut bad_magic = blob.clone();
    bad_magic[0] = 0;
    assert!(parse_fdt(&bad_magic, 0, (0, 0)).is_none());
    assert!(parse_fdt(&blob[..blob.len() - 1], 0, (0, 0)).is_none());
    assert!(parse_fdt(&blob, usize::MAX - 10, (0, 0)).is_none());
    let mut tree = Tree::new();
    tree.begin("");
    tree.end();
    assert!(parse_fdt(&tree.blob(), 0, (0, 0)).is_none());
    let mut bad_token = blob.clone();
    bad_token[40..44].copy_from_slice(&7u32.to_be_bytes());
    assert!(parse_fdt(&bad_token, 0, (0, 0)).is_none());
}

#[test]
fn big_endian_helpers() {
    let bytes = [0x12, 0x34, 0x56, 0x78, 0x9a, 0xbc, 0xde, 0xf0];
    assert_eq!(read_be32(&bytes, 0), Some(0x1234_5678));
    assert_eq!(read_be32(&bytes, 5), None);
    assert_eq!(read_cells(&bytes, 0, 8, 2), Some(0x1234_5678_9abc_def0));
    assert_eq!(read_cells(&bytes, 4, 4, 1), Some(0x9abc_def0));
    assert_eq!(read_cells(&bytes, 0, 4, 2), None);
    assert_eq!(read_cells(&bytes, 0, 8, 3), None);
}
