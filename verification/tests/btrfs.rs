use lib::btrfs::{
    components, contract_self_check, crc32c, find_dir_record, fixture_superblock, fixture_tree,
    map_logical, parse_chunk, parse_root_item, parse_superblock, read_inline_extent, Chunk, Error,
    FixtureDisk, FixtureFault, Mount, probe_ramdisk, SectorReader,
};
use lib::drivers::block::BlockLayer;

#[test]
fn btrfs_fixture_self_check_passes() {
    assert!(contract_self_check());
}

#[test]
fn crc32c_of_check_string() {
    // The register without the final inversion: !0xE3069283.
    assert_eq!(crc32c(b"123456789"), 0x1cf9_6d7c);
    assert_eq!(crc32c(b""), 0xffff_ffff);
}

#[test]
fn components_split_and_refuse() {
    let parts = components(b"/a//bc/").unwrap();
    assert_eq!(parts, vec![b"a".to_vec(), b"bc".to_vec()]);
    assert_eq!(components(b"/").unwrap().len(), 0);
    assert_eq!(components(b"relative"), Err(Error::InvalidPath));
    assert_eq!(components(b"/a/../b"), Err(Error::InvalidPath));
    assert_eq!(components(b"/."), Err(Error::InvalidPath));
    let deep = "/x".repeat(17);
    assert_eq!(components(deep.as_bytes()), Err(Error::InvalidPath));
    assert_eq!(components("/x".repeat(16).as_bytes()).unwrap().len(), 16);
}

#[test]
fn chunk_items_are_checked() {
    let mut data = vec![0u8; 96];
    data[0] = 0x10; // length 0x10
    data[44] = 1; // one stripe
    data[56] = 0x20; // physical 0x20
    assert_eq!(parse_chunk(0x100, &data), Ok(Chunk { logical: 0x100, length: 0x10, physical: 0x20 }));
    assert_eq!(parse_chunk(0, &data[..95]), Err(Error::TreeCorrupt));
    data[44] = 2;
    assert_eq!(parse_chunk(0, &data), Err(Error::UnsupportedFeature));
}

#[test]
fn logical_addresses_map_through_chunks() {
    let chunks = [
        Chunk { logical: 0x1000, length: 0x1000, physical: 0x8000 },
        Chunk { logical: 0x4000, length: 0x100, physical: 0 },
    ];
    assert_eq!(map_logical(&chunks, 0x1010), Ok(0x8010));
    assert_eq!(map_logical(&chunks, 0x40ff), Ok(0xff));
    assert_eq!(map_logical(&chunks, 0x4100), Err(Error::UnmappedLogical));
    assert_eq!(map_logical(&[], 0), Err(Error::UnmappedLogical));
}

#[test]
fn root_items_and_snapshots() {
    let mut data = vec![0u8; 279];
    data[168] = 7;
    data[176] = 9;
    data[208] = 1;
    let item = parse_root_item(256, &data).unwrap();
    assert_eq!((item.id, item.root_dirid, item.bytenr, item.flags, item.snapshot), (256, 7, 9, 1, false));
    data[270] = 1;
    assert!(parse_root_item(256, &data).unwrap().snapshot);
    assert_eq!(parse_root_item(1, &data[..238]), Err(Error::TreeCorrupt));
}

#[test]
fn directory_records_are_searched() {
    let mut data = vec![0u8; 30 + 3];
    data[0] = 42;
    data[27] = 3;
    data[30..33].copy_from_slice(b"abc");
    assert_eq!(find_dir_record(&data, b"abc"), Ok(Some(42)));
    assert_eq!(find_dir_record(&data, b"abd"), Ok(None));
    assert_eq!(find_dir_record(&data[..20], b"abc"), Err(Error::TreeCorrupt));
}

#[test]
fn inline_extents_are_exact() {
    let mut data = vec![0u8; 53 + 4];
    data[53..].copy_from_slice(b"data");
    assert_eq!(read_inline_extent(&data, 4), Ok(b"data".to_vec()));
    assert_eq!(read_inline_extent(&data, 3), Err(Error::TreeCorrupt));
    data[19] = 1;
    assert_eq!(read_inline_extent(&data, 4).err(), Some(Error::UnsupportedFeature));
}

#[test]
fn fixture_superblock_parses() {
    let sb = fixture_superblock();
    let parsed = parse_superblock(&sb).ok().unwrap();
    assert_eq!(parsed.nodesize, 4096);
    assert_eq!(parsed.root, 0x2000);
    assert_eq!(parsed.chunk_root, 0x1000);
    assert_eq!(parsed.chunks, vec![Chunk { logical: 0, length: 0x10_000, physical: 0 }]);
    let mut bad = sb.clone();
    bad[0x40] = 0;
    assert_eq!(parse_superblock(&bad).err(), Some(Error::InvalidSuperblock));
    let mut bad = sb.clone();
    bad[100] ^= 1;
    assert_eq!(parse_superblock(&bad).err(), Some(Error::ChecksumMismatch));
    assert_eq!(fixture_tree(0x9000), vec![0u8; 4096]);
}

#[test]
fn fixture_mounts_reads_and_refuses() {
    let volume = Mount::open(FixtureDisk { fault: FixtureFault::Intact }).ok().unwrap();
    let geometry = volume.geometry();
    assert_eq!(geometry.nodesize, 4096);
    assert!(geometry.read_only && geometry.checksum);
    let info = volume.stat("/hello.txt").unwrap();
    assert_eq!((info.mode & 0o777, info.size, info.directory), (0o644, 14, false));
    assert!(volume.stat("/").unwrap().directory);
    let mut out = vec![0xaau8; 20];
    assert_eq!(volume.read_file("/hello.txt", &mut out), Ok(14));
    assert_eq!(&out[..14], b"btrfs fixture\n");
    assert_eq!(&out[14..], &[0xaa; 6]);
    assert_eq!(volume.read_file("/missing", &mut out), Err(Error::NotFound));
    assert_eq!(volume.read_file("/hello.txt/x", &mut out), Err(Error::NotDirectory));
    assert_eq!(volume.read_file("nope", &mut out), Err(Error::InvalidPath));
    assert_eq!(volume.write_file("/hello.txt", b"x"), Err(Error::ReadOnly));
    assert!(matches!(Mount::open(FixtureDisk { fault: FixtureFault::CorruptSuperblock }), Err(Error::ChecksumMismatch)));
    assert!(matches!(Mount::open(FixtureDisk { fault: FixtureFault::UnsupportedChecksum }), Err(Error::UnsupportedChecksum)));
}

#[test]
fn ramdisk_holding_the_fixture_mounts_and_reads() {
    let fixture = FixtureDisk { fault: FixtureFault::Intact };
    let mut image = Vec::new();
    for lba in 0..136u64 {
        image.extend_from_slice(&fixture.read_sector(lba).unwrap());
    }
    let mut layer = BlockLayer::new(Some((136, true)));
    layer.ramdisk = image;
    let mount = probe_ramdisk(&layer).unwrap();
    let info = mount.stat("/hello.txt").unwrap();
    assert_eq!((info.size, info.directory, info.mode & 0o777), (14, false, 0o644));
    let mut output = vec![0u8; 32];
    assert_eq!(mount.read_file("/hello.txt", &mut output), Ok(14));
    assert_eq!(&output[..14], b"btrfs fixture\n");
    assert!(output[14..].iter().all(|b| *b == 0));
    assert_eq!(mount.stat("/missing").err(), Some(Error::NotFound));
    assert_eq!(mount.stat("hello.txt").err(), Some(Error::InvalidPath));

    let short = BlockLayer::new(None);
    assert_eq!(probe_ramdisk(&short).err(), Some(Error::InvalidSuperblock));
    let empty = BlockLayer::new(Some((136, false)));
    assert_eq!(probe_ramdisk(&empty).err(), Some(Error::Io));
}
