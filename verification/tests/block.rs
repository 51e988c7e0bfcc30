use lib::drivers::block::{
    bytes_equal, parse_partitions, ramdisk_image, vec_of, BackendKind, BlockLayer, CacheMode, Error, SectorDevice,
    RAMDISK_SECTORS, SECTOR_SIZE,
};

/// A disk of sectors in memory, which the ramdisk backend never touches.
struct Disk {
    sectors: Vec<Vec<u8>>,
    flushes: usize,
}

impl SectorDevice for Disk {
    fn read_sector(&mut self, lba: u64, output: &mut Vec<u8>) -> bool {
        match self.sectors.get(lba as usize) {
            Some(sector) => {
                output.clear();
                output.extend_from_slice(sector);
                true
            }
            None => false,
        }
    }

    fn write_sector(&mut self, lba: u64, input: &[u8]) -> bool {
        match self.sectors.get_mut(lba as usize) {
            Some(sector) => {
                sector.copy_from_slice(input);
                true
            }
            None => false,
        }
    }

    fn flush(&mut self) -> bool {
        self.flushes += 1;
        true
    }
}

#[test]
fn ramdisk_reads_back_what_was_written() {
    let mut disk = Disk { sectors: Vec::new(), flushes: 0 };
    let mut layer = BlockLayer::new(None);
    assert_eq!(layer.backend(), BackendKind::Ramdisk);
    assert!(layer.init(&mut disk));
    let mut partitions = Vec::new();
    partitions.resize(4, lib::drivers::block::Partition { index: 0, type_code: 0, start_lba: 0, sectors: 0 });
    assert_eq!(layer.partitions(&mut partitions), 1);
    assert_eq!((partitions[0].type_code, partitions[0].start_lba, partitions[0].sectors), (0xda, 1, 31));

    let data = vec_of(0x5a, 2 * SECTOR_SIZE);
    assert_eq!(layer.write_sectors(&mut disk, 3, &data), Ok(2 * SECTOR_SIZE));
    let mut back = vec![0u8; 2 * SECTOR_SIZE];
    assert_eq!(layer.read_sectors(&mut disk, 3, &mut back), Ok(2 * SECTOR_SIZE));
    assert!(bytes_equal(&back, &data));
    let mut first = vec![0u8; SECTOR_SIZE];
    assert_eq!(layer.read_sectors(&mut disk, 0, &mut first), Ok(SECTOR_SIZE));
    assert_eq!(first[5], 5);
    assert_eq!(first[510], 0x55);

    assert_eq!(layer.read_sectors(&mut disk, RAMDISK_SECTORS as u64, &mut first), Err(Error::OutOfRange));
    let mut odd = vec![0u8; 100];
    assert_eq!(layer.read_sectors(&mut disk, 0, &mut odd), Err(Error::InvalidRequest));
    layer.set_read_only(true);
    assert_eq!(layer.write_sectors(&mut disk, 3, &data), Err(Error::ReadOnly));
    layer.set_read_only(false);
    assert_eq!(layer.set_cache_mode(CacheMode::WriteBack), Err(Error::Unsupported));
    assert_eq!(layer.set_cache_mode(CacheMode::WriteThrough), Ok(()));
    assert_eq!(layer.flush_cache(&mut disk), Ok(()));
    assert_eq!(disk.flushes, 0);
    assert_eq!(CacheMode::WriteBack.name(), "write-back");
    assert!(layer.stats().completed > 0);
    assert!(disk.sectors.is_empty());
}

#[test]
fn partitions_from_a_first_sector() {
    let image = ramdisk_image();
    let parts = parse_partitions(&image[..SECTOR_SIZE], 32);
    assert_eq!(parts.len(), 1);
    assert_eq!((parts[0].index, parts[0].start_lba, parts[0].sectors), (0, 1, 31));
    // A partition that runs past the disk is ignored, which leaves the whole disk.
    let small = parse_partitions(&image[..SECTOR_SIZE], 16);
    assert_eq!(small.len(), 1);
    assert_eq!((small[0].type_code, small[0].start_lba, small[0].sectors), (0, 0, 16));
    let unsigned = parse_partitions(&vec![0u8; SECTOR_SIZE], 100);
    assert_eq!((unsigned[0].type_code, unsigned[0].sectors), (0, 100));
}

#[test]
fn virtio_backend_uses_the_device() {
    let mut disk = Disk { sectors: vec![vec![7u8; SECTOR_SIZE]; 4], flushes: 0 };
    let mut layer = BlockLayer::new(Some((4, false)));
    assert_eq!(layer.backend(), BackendKind::VirtioBlk);
    assert!(layer.init(&mut disk));
    let mut sector = vec![0u8; SECTOR_SIZE];
    assert_eq!(layer.read_sectors(&mut disk, 2, &mut sector), Ok(SECTOR_SIZE));
    assert_eq!(sector[0], 7);
    assert_eq!(layer.write_sectors(&mut disk, 1, &vec_of(9, SECTOR_SIZE)), Ok(SECTOR_SIZE));
    assert_eq!(disk.sectors[1][0], 9);
    let mut protected = BlockLayer::new(Some((4, true)));
    assert_eq!(protected.write_sectors(&mut disk, 1, &vec_of(9, SECTOR_SIZE)), Err(Error::ReadOnly));
}
