use vstd::prelude::*;
use vstd::string::StringSliceAdditionalSpecFns;
use crate::bytes::{spec_le_u16, spec_le_u32, spec_le_u64, le_u16, le_u32, le_u64, put_u16, put_u32, put_u64, zeroes};
use crate::drivers::block::BlockLayer;

verus! {

pub const SECTOR_SIZE: usize = 512;
pub const SUPERBLOCK_OFFSET: u64 = 0x10_000;
pub const SUPERBLOCK_SIZE: usize = 4096;
pub const SYS_CHUNK_ARRAY_OFFSET: usize = 0x32b;
pub const SYSTEM_CHUNK_ARRAY_SIZE: usize = 2048;
pub const MAX_NODE_SIZE: usize = 4096;
pub const TREE_HEADER_SIZE: usize = 101;
pub const LEAF_ITEM_SIZE: usize = 25;
pub const NODE_PTR_SIZE: usize = 33;
pub const MAX_CHUNKS: usize = 16;
pub const MAX_PENDING_NODES: usize = 512;
pub const MAX_TREE_VISITS: usize = 4096;
pub const MAX_COMPONENTS: usize = 16;

pub const CSUM_CRC32C: u16 = 0;
pub const BTRFS_ROOT_TREE_OBJECTID: u64 = 1;
pub const BTRFS_CHUNK_TREE_OBJECTID: u64 = 3;
pub const BTRFS_FS_TREE_OBJECTID: u64 = 5;
pub const BTRFS_FIRST_FREE_OBJECTID: u64 = 256;
pub const ROOT_ITEM_KEY: u8 = 132;
pub const INODE_ITEM_KEY: u8 = 1;
pub const DIR_ITEM_KEY: u8 = 84;
pub const EXTENT_DATA_KEY: u8 = 108;
pub const CHUNK_ITEM_KEY: u8 = 228;
pub const CHUNK_PROFILE_MASK: u64 = 0x7f8;
pub const ROOT_SUBVOL_RDONLY: u64 = 1;
pub const INODE_DIRECTORY: u32 = 0x4000;
pub const INODE_REGULAR: u32 = 0x8000;

#[derive(Clone, Copy, Debug, PartialEq, Eq, Structural)]
pub enum Error {
    Io,
    InvalidSuperblock,
    UnsupportedChecksum,
    ChecksumMismatch,
    UnsupportedFeature,
    UnmappedLogical,
    TreeCorrupt,
    InvalidPath,
    NotFound,
    NotDirectory,
    IsDirectory,
    BufferTooSmall,
    PermissionDenied,
    ReadOnly,
}

#[derive(Clone, Copy, Debug, PartialEq, Eq, Structural)]
pub struct Geometry {
    pub sectorsize: u32,
    pub nodesize: u32,
    pub total_bytes: u64,
    pub generation: u64,
    pub chunks: usize,
    pub checksum: bool,
    pub read_only: bool,
}

#[derive(Clone, Copy, Debug, PartialEq, Eq, Structural)]
pub struct Subvolume {
    pub id: u64,
    pub root_dirid: u64,
    pub bytenr: u64,
    pub read_only: bool,
    pub snapshot: bool,
}

#[derive(Clone, Copy, Debug, PartialEq, Eq, Structural)]
pub struct FileInfo {
    pub mode: u32,
    pub size: u64,
    pub directory: bool,
}

/// A logical range of the filesystem and where it starts on the device.
#[derive(Clone, Copy, Debug, PartialEq, Eq, Structural)]
pub struct Chunk {
    pub logical: u64,
    pub length: u64,
    pub physical: u64,
}

#[derive(Clone, Copy, Debug, PartialEq, Eq, Structural)]
pub struct Key {
    pub objectid: u64,
    pub kind: u8,
    pub offset: u64,
}

#[derive(Clone, Copy, Debug, PartialEq, Eq, Structural)]
pub struct Inode {
    pub mode: u32,
    pub size: u64,
}

#[derive(Clone, Copy, Debug, PartialEq, Eq, Structural)]
pub struct RootItem {
    pub id: u64,
    pub root_dirid: u64,
    pub bytenr: u64,
    pub flags: u64,
    pub snapshot: bool,
}

// ---------------------------------------------------------------------------
// CRC-32C (Castagnoli, reflected, no final inversion)

/// One bit step of the reflected CRC-32C register.
pub open spec fn crc_bit(c: u32) -> u32 {
    if c & 1 == 1 {
        (c >> 1u32) ^ 0x82f6_3b78u32
    } else {
        c >> 1u32
    }
}

/// `n` bit steps.
pub open spec fn crc_bits(c: u32, n: nat) -> u32
    decreases n,
{
    if n == 0 {
        c
    } else {
        crc_bits(crc_bit(c), (n - 1) as nat)
    }
}

/// The register after folding in one byte.
pub open spec fn crc_byte(c: u32, byte: u8) -> u32 {
    crc_bits(c ^ (byte as u32), 8)
}

/// The CRC-32C register after `s`, starting from all ones.
pub open spec fn crc32c_spec(s: Seq<u8>) -> u32
    decreases s.len(),
{
    if s.len() == 0 {
        0xffff_ffffu32
    } else {
        crc_byte(crc32c_spec(s.drop_last()), s.last())
    }
}

fn crc_step(c: u32) -> (r: u32)
    ensures
        r == crc_bit(c),
{
    if c & 1 == 1 {
        (c >> 1u32) ^ 0x82f6_3b78u32
    } else {
        c >> 1u32
    }
}

pub fn crc32c(bytes: &[u8]) -> (r: u32)
    ensures
        r == crc32c_spec(bytes@),
{
    let mut crc: u32 = 0xffff_ffff;
    let mut i: usize = 0;
    while i < bytes.len()
        invariant
            i <= bytes@.len(),
            crc == crc32c_spec(bytes@.take(i as int)),
        decreases bytes@.len() - i,
    {
        let byte = bytes[i];
        let mut c = crc ^ (byte as u32);
        let ghost start = c;
        let mut bit: u32 = 0;
        while bit < 8
            invariant
                bit <= 8,
                crc_bits(start, 8) == crc_bits(c, (8 - bit) as nat),
            decreases 8 - bit,
        {
            c = crc_step(c);
            bit = bit + 1;
        }
        assert(bytes@.take(i + 1).drop_last() =~= bytes@.take(i as int));
        crc = c;
        i = i + 1;
    }
    assert(bytes@.take(i as int) =~= bytes@);
    crc
}

// ---------------------------------------------------------------------------
// Paths

/// A path component that would step outside the tree walk: `.` or `..`.
pub open spec fn is_dot_component(p: Seq<u8>) -> bool {
    p == seq![46u8] || p == seq![46u8, 46u8]
}

/// The components of `b` from `index` on, the current one starting at `start`;
/// `None` when a component is `.` or `..` or there are more than the limit.
pub open spec fn components_from(b: Seq<u8>, index: int, start: int, found: Seq<Seq<u8>>) -> Option<
    Seq<Seq<u8>>,
>
    decreases b.len() - index,
{
    if index >= b.len() {
        if start < b.len() {
            let piece = b.subrange(start, b.len() as int);
            if found.len() >= MAX_COMPONENTS || is_dot_component(piece) {
                None
            } else {
                Some(found.push(piece))
            }
        } else {
            Some(found)
        }
    } else if b[index] != 47u8 {
        components_from(b, index + 1, start, found)
    } else if index > start {
        let piece = b.subrange(start, index);
        if found.len() >= MAX_COMPONENTS || is_dot_component(piece) {
            None
        } else {
            components_from(b, index + 1, index + 1, found.push(piece))
        }
    } else {
        components_from(b, index + 1, index + 1, found)
    }
}

/// The non-empty components of an absolute path, or `None` when it is not absolute,
/// names `.` or `..`, or is too deep.
pub open spec fn path_components(b: Seq<u8>) -> Option<Seq<Seq<u8>>> {
    if b.len() == 0 || b[0] != 47u8 {
        None
    } else {
        components_from(b, 1, 1, Seq::empty())
    }
}

fn slice_range(b: &[u8], start: usize, end: usize) -> (r: Vec<u8>)
    requires
        start <= end <= b@.len(),
    ensures
        r@ == b@.subrange(start as int, end as int),
{
    let mut out: Vec<u8> = Vec::new();
    let mut k = start;
    while k < end
        invariant
            start <= k <= end <= b@.len(),
            out@ == b@.subrange(start as int, k as int),
        decreases end - k,
    {
        out.push(b[k]);
        assert(out@ =~= b@.subrange(start as int, k + 1));
        k = k + 1;
    }
    out
}

fn is_dot(piece: &[u8]) -> (r: bool)
    ensures
        r == is_dot_component(piece@),
{
    if piece.len() == 1 {
        let dot = piece[0] == 46;
        assert(dot ==> piece@ =~= seq![46u8]);
        dot
    } else if piece.len() == 2 {
        let dots = piece[0] == 46 && piece[1] == 46;
        assert(dots ==> piece@ =~= seq![46u8, 46u8]);
        dots
    } else {
        false
    }
}

pub open spec fn views(v: Seq<Vec<u8>>) -> Seq<Seq<u8>> {
    v.map_values(|x: Vec<u8>| x@)
}

/// The components of `path`; `InvalidPath` exactly when `path_components` has none.
pub fn components(path: &[u8]) -> (r: Result<Vec<Vec<u8>>, Error>)
    ensures
        match path_components(path@) {
            None => r == Err::<Vec<Vec<u8>>, Error>(Error::InvalidPath),
            Some(found) => r matches Ok(v) && views(v@) == found,
        },
{
    if path.len() == 0 || path[0] != 47 {
        return Err(Error::InvalidPath);
    }
    let mut found: Vec<Vec<u8>> = Vec::new();
    let mut start: usize = 1;
    let mut index: usize = 1;
    assert(views(found@) =~= Seq::<Seq<u8>>::empty());
    while index < path.len()
        invariant
            1 <= start <= index + 1,
            start <= index || index == 0,
            1 <= index <= path@.len(),
            start <= path@.len(),
            found@.len() <= MAX_COMPONENTS,
            path_components(path@) == components_from(path@, index as int, start as int, views(found@)),
        decreases path@.len() - index,
    {
        if path[index] == 47 {
            if index > start {
                let piece = slice_range(path, start, index);
                if found.len() >= MAX_COMPONENTS || is_dot(piece.as_slice()) {
                    return Err(Error::InvalidPath);
                }
                let ghost before = found@;
                found.push(piece);
                assert(views(found@) =~= views(before).push(path@.subrange(start as int, index as int)));
            }
            start = index + 1;
        }
        index = index + 1;
    }
    if start < path.len() {
        let piece = slice_range(path, start, path.len());
        if found.len() >= MAX_COMPONENTS || is_dot(piece.as_slice()) {
            return Err(Error::InvalidPath);
        }
        let ghost before = found@;
        found.push(piece);
        assert(views(found@) =~= views(before).push(path@.subrange(start as int, path@.len() as int)));
    }
    Ok(found)
}

// ---------------------------------------------------------------------------
// Items

/// The chunk a chunk item describes at `logical`: single-device, unstriped profiles
/// only.
pub open spec fn chunk_of(logical: u64, data: Seq<u8>) -> Result<Chunk, Error> {
    if data.len() < 96 {
        Err(Error::TreeCorrupt)
    } else {
        let length = spec_le_u64(data, 0);
        let profile = spec_le_u64(data, 24) as u64;
        if length == 0 || spec_le_u16(data, 44) != 1 || profile & CHUNK_PROFILE_MASK != 0 {
            Err(Error::UnsupportedFeature)
        } else {
            Ok(Chunk { logical, length: length as u64, physical: spec_le_u64(data, 56) as u64 })
        }
    }
}

pub fn parse_chunk(logical: u64, data: &[u8]) -> (r: Result<Chunk, Error>)
    ensures
        r == chunk_of(logical, data@),
{
    if data.len() < 96 {
        return Err(Error::TreeCorrupt);
    }
    let length = le_u64(data, 0);
    let profile = le_u64(data, 24);
    if length == 0 || le_u16(data, 44) != 1 || profile & CHUNK_PROFILE_MASK != 0 {
        return Err(Error::UnsupportedFeature);
    }
    Ok(Chunk { logical, length, physical: le_u64(data, 56) })
}

/// The chunk table after recording `chunk`: it replaces the first entry with the same
/// logical start, or is appended while there is room.
pub open spec fn chunks_added(chunks: Seq<Chunk>, chunk: Chunk) -> Result<Seq<Chunk>, Error> {
    if exists|i: int| 0 <= i < chunks.len() && chunks[i].logical == chunk.logical {
        let i = choose|i: int|
            0 <= i < chunks.len() && chunks[i].logical == chunk.logical && forall|j: int|
                0 <= j < i ==> chunks[j].logical != chunk.logical;
        Ok(chunks.update(i, chunk))
    } else if chunks.len() >= MAX_CHUNKS {
        Err(Error::UnsupportedFeature)
    } else {
        Ok(chunks.push(chunk))
    }
}

pub fn add_chunk(chunks: &mut Vec<Chunk>, chunk: Chunk) -> (r: Result<(), Error>)
    requires
        old(chunks)@.len() <= MAX_CHUNKS,
    ensures
        final(chunks)@.len() <= MAX_CHUNKS,
        match chunks_added(old(chunks)@, chunk) {
            Ok(next) => r is Ok && final(chunks)@ == next,
            Err(e) => r == Err::<(), Error>(e) && final(chunks)@ == old(chunks)@,
        },
{
    let mut i: usize = 0;
    while i < chunks.len()
        invariant
            i <= chunks@.len(),
            chunks@ == old(chunks)@,
            chunks@.len() <= MAX_CHUNKS,
            forall|j: int| 0 <= j < i ==> chunks@[j].logical != chunk.logical,
        decreases chunks@.len() - i,
    {
        if chunks[i].logical == chunk.logical {
            let ghost first = i as int;
            assert(forall|k: int|
                0 <= k < chunks@.len() && chunks@[k].logical == chunk.logical && (forall|j: int|
                    0 <= j < k ==> chunks@[j].logical != chunk.logical) ==> k == first) by {
                assert forall|k: int|
                    0 <= k < chunks@.len() && chunks@[k].logical == chunk.logical && (forall|j: int|
                        0 <= j < k ==> chunks@[j].logical != chunk.logical) implies k == first by {
                    if k < first {
                    } else if k > first {
                        assert(chunks@[first].logical == chunk.logical);
                    }
                }
            }
            chunks.set(i, chunk);
            return Ok(());
        }
        i = i + 1;
    }
    if chunks.len() >= MAX_CHUNKS {
        return Err(Error::UnsupportedFeature);
    }
    chunks.push(chunk);
    Ok(())
}

/// The root item of tree `id` in `data`; a snapshot carries a non-zero parent UUID.
pub open spec fn root_item_of(id: u64, data: Seq<u8>) -> Result<RootItem, Error> {
    if data.len() < 239 {
        Err(Error::TreeCorrupt)
    } else {
        Ok(
            RootItem {
                id,
                root_dirid: spec_le_u64(data, 168) as u64,
                bytenr: spec_le_u64(data, 176) as u64,
                flags: spec_le_u64(data, 208) as u64,
                snapshot: data.len() >= 279 && exists|k: int| 263 <= k < 279 && data[k] != 0,
            },
        )
    }
}

pub fn parse_root_item(id: u64, data: &[u8]) -> (r: Result<RootItem, Error>)
    ensures
        r == root_item_of(id, data@),
{
    if data.len() < 239 {
        return Err(Error::TreeCorrupt);
    }
    let mut snapshot = false;
    if data.len() >= 279 {
        let mut k: usize = 263;
        while k < 279
            invariant
                263 <= k <= 279,
                data@.len() >= 279,
                snapshot == exists|j: int| 263 <= j < k && data@[j] != 0,
            decreases 279 - k,
        {
            if data[k] != 0 {
                snapshot = true;
            }
            k = k + 1;
        }
    }
    Ok(
        RootItem {
            id,
            root_dirid: le_u64(data, 168),
            bytenr: le_u64(data, 176),
            flags: le_u64(data, 208),
            snapshot,
        },
    )
}

/// The mode and size an inode item records.
pub open spec fn inode_of(data: Seq<u8>) -> Result<Inode, Error> {
    if data.len() < 64 {
        Err(Error::TreeCorrupt)
    } else {
        Ok(Inode { mode: spec_le_u32(data, 52) as u32, size: spec_le_u64(data, 16) as u64 })
    }
}

pub fn parse_inode(data: &[u8]) -> (r: Result<Inode, Error>)
    ensures
        r == inode_of(data@),
{
    if data.len() < 64 {
        return Err(Error::TreeCorrupt);
    }
    Ok(Inode { mode: le_u32(data, 52), size: le_u64(data, 16) })
}

/// Looks `target` up in the directory records of `data` from `offset` on: the child's
/// object id, `None` when no record names it, or `TreeCorrupt` when a record is cut short
/// or empty.
pub open spec fn dir_lookup(data: Seq<u8>, offset: int, target: Seq<u8>) -> Result<Option<u64>, Error>
    decreases data.len() - offset,
{
    if offset >= data.len() {
        Ok(None)
    } else if data.len() - offset < 30 {
        Err(Error::TreeCorrupt)
    } else {
        let data_length = spec_le_u16(data, offset + 25);
        let name_length = spec_le_u16(data, offset + 27);
        let record_length = 30 + data_length + name_length;
        if record_length == 30 || offset + record_length > data.len() {
            Err(Error::TreeCorrupt)
        } else if name_length == target.len() && data.subrange(offset + 30, offset + 30 + name_length)
            == target {
            Ok(Some(spec_le_u64(data, offset) as u64))
        } else {
            dir_lookup(data, offset + record_length, target)
        }
    }
}

/// The errors a lookup in the trees can give: none that is about the path itself or
/// about reading a file once found.
pub open spec fn lookup_error(e: Error) -> bool {
    e != Error::InvalidPath && e != Error::IsDirectory && e != Error::PermissionDenied && e
        != Error::BufferTooSmall
}

/// A directory lookup fails only on a malformed record, never on the path.
proof fn lemma_dir_lookup_error(data: Seq<u8>, offset: int, target: Seq<u8>)
    ensures
        dir_lookup(data, offset, target) matches Err(e) ==> e == Error::TreeCorrupt,
    decreases data.len() - offset,
{
    if offset < data.len() && data.len() - offset >= 30 {
        let record_length = 30 + spec_le_u16(data, offset + 25) + spec_le_u16(data, offset + 27);
        if record_length != 30 && offset + record_length <= data.len() {
            lemma_dir_lookup_error(data, offset + record_length, target);
        }
    }
}

fn bytes_equal_at(data: &[u8], at: usize, target: &[u8]) -> (r: bool)
    requires
        at + target@.len() <= data@.len(),
    ensures
        r == (data@.subrange(at as int, at + target@.len()) == target@),
{
    let _n = data.len();
    let mut k: usize = 0;
    while k < target.len()
        invariant
            k <= target@.len(),
            data@.len() <= usize::MAX,
            at + target@.len() <= data@.len(),
            forall|j: int| 0 <= j < k ==> data@[at + j] == target@[j],
        decreases target@.len() - k,
    {
        if data[at + k] != target[k] {
            assert(data@.subrange(at as int, at + target@.len())[k as int] != target@[k as int]);
            return false;
        }
        k = k + 1;
    }
    assert(data@.subrange(at as int, at + target@.len()) =~= target@);
    true
}

pub fn find_dir_record(data: &[u8], target: &[u8]) -> (r: Result<Option<u64>, Error>)
    ensures
        r == dir_lookup(data@, 0, target@),
{
    let mut offset: usize = 0;
    while offset < data.len()
        invariant
            offset <= data@.len(),
            dir_lookup(data@, 0, target@) == dir_lookup(data@, offset as int, target@),
        decreases data@.len() - offset,
    {
        if data.len() - offset < 30 {
            return Err(Error::TreeCorrupt);
        }
        let data_length = le_u16(data, offset + 25) as usize;
        let name_length = le_u16(data, offset + 27) as usize;
        let record_length = 30 + data_length + name_length;
        if record_length == 30 || record_length > data.len() - offset {
            return Err(Error::TreeCorrupt);
        }
        if name_length == target.len() && bytes_equal_at(data, offset + 30, target) {
            return Ok(Some(le_u64(data, offset)));
        }
        offset = offset + record_length;
    }
    Ok(None)
}

/// The contents of an inline extent item holding a file of `size` bytes: uncompressed,
/// unencrypted, inline, and exactly `size` long.
pub open spec fn inline_extent(data: Seq<u8>, size: int) -> Result<Seq<u8>, Error> {
    if data.len() < 53 || data[16] != 0 || data[17] != 0 || data[18] != 0 || data[19] != 0 {
        Err(Error::UnsupportedFeature)
    } else if data.len() - 53 != size {
        Err(Error::TreeCorrupt)
    } else {
        Ok(data.subrange(53, data.len() as int))
    }
}

pub fn read_inline_extent(data: &[u8], size: usize) -> (r: Result<Vec<u8>, Error>)
    ensures
        match inline_extent(data@, size as int) {
            Ok(contents) => r matches Ok(v) && v@ == contents,
            Err(e) => r == Err::<Vec<u8>, Error>(e),
        },
{
    if data.len() < 53 || data[16] != 0 || data[17] != 0 || data[18] != 0 || data[19] != 0 {
        return Err(Error::UnsupportedFeature);
    }
    if data.len() - 53 != size {
        return Err(Error::TreeCorrupt);
    }
    Ok(slice_range(data, 53, data.len()))
}

/// Where `logical` lies on the device: through the first chunk that holds it; a chunk
/// whose end overflows stops the search.
pub open spec fn logical_to_physical(chunks: Seq<Chunk>, logical: u64) -> Result<u64, Error>
    decreases chunks.len(),
{
    if chunks.len() == 0 {
        Err(Error::UnmappedLogical)
    } else {
        let chunk = chunks[0];
        if chunk.logical + chunk.length > u64::MAX {
            Err(Error::UnmappedLogical)
        } else if chunk.logical <= logical < chunk.logical + chunk.length {
            if chunk.physical + (logical - chunk.logical) > u64::MAX {
                Err(Error::UnmappedLogical)
            } else {
                Ok((chunk.physical + (logical - chunk.logical)) as u64)
            }
        } else {
            logical_to_physical(chunks.drop_first(), logical)
        }
    }
}

/// Translation fails only on an address no chunk maps.
proof fn lemma_logical_error(chunks: Seq<Chunk>, logical: u64)
    ensures
        logical_to_physical(chunks, logical) matches Err(e) ==> e == Error::UnmappedLogical,
    decreases chunks.len(),
{
    if chunks.len() > 0 {
        lemma_logical_error(chunks.drop_first(), logical);
    }
}

pub fn map_logical(chunks: &[Chunk], logical: u64) -> (r: Result<u64, Error>)
    ensures
        r == logical_to_physical(chunks@, logical),
        r matches Err(e) ==> e == Error::UnmappedLogical,
{
    proof {
        lemma_logical_error(chunks@, logical);
    }
    let mut i: usize = 0;
    assert(chunks@.skip(0) =~= chunks@);
    while i < chunks.len()
        invariant
            i <= chunks@.len(),
            logical_to_physical(chunks@, logical) == logical_to_physical(chunks@.skip(i as int), logical),
        decreases chunks@.len() - i,
    {
        let chunk = chunks[i];
        assert(chunks@.skip(i as int)[0] == chunk);
        assert(chunks@.skip(i as int).drop_first() =~= chunks@.skip(i + 1));
        let end = match chunk.logical.checked_add(chunk.length) {
            Some(e) => e,
            None => return Err(Error::UnmappedLogical),
        };
        if logical >= chunk.logical && logical < end {
            return match chunk.physical.checked_add(logical - chunk.logical) {
                Some(p) => Ok(p),
                None => Err(Error::UnmappedLogical),
            };
        }
        i = i + 1;
    }
    Err(Error::UnmappedLogical)
}

// ---------------------------------------------------------------------------
// Superblock

/// `_BHRfS_M`
pub open spec fn magic() -> Seq<u8> {
    seq![95u8, 66u8, 72u8, 82u8, 102u8, 83u8, 95u8, 77u8]
}

fn magic_bytes() -> (r: Vec<u8>)
    ensures
        r@ == magic(),
{
    let mut v: Vec<u8> = Vec::new();
    v.push(95);
    v.push(66);
    v.push(72);
    v.push(82);
    v.push(102);
    v.push(83);
    v.push(95);
    v.push(77);
    v
}

/// The chunks of the superblock's system chunk array from `offset` on, added to
/// `chunks`: each entry is a 17-byte key and a 96-byte single-stripe chunk item.
pub open spec fn chunk_array_from(sb: Seq<u8>, length: int, offset: int, chunks: Seq<Chunk>) -> Result<
    Seq<Chunk>,
    Error,
>
    decreases length - offset,
{
    if offset >= length {
        Ok(chunks)
    } else if length - offset < 17 {
        Err(Error::InvalidSuperblock)
    } else {
        let key_offset = spec_le_u64(sb, SYS_CHUNK_ARRAY_OFFSET + offset + 9) as u64;
        let data_start = SYS_CHUNK_ARRAY_OFFSET + offset + 17;
        match chunk_of(key_offset, sb.subrange(data_start, SYS_CHUNK_ARRAY_OFFSET + length)) {
            Err(e) => Err(e),
            Ok(chunk) => if 113 > length - offset {
                Err(Error::InvalidSuperblock)
            } else {
                match chunks_added(chunks, chunk) {
                    Err(e) => Err(e),
                    Ok(next) => chunk_array_from(sb, length, offset + 113, next),
                }
            },
        }
    }
}

/// The system chunk array of `length` bytes.
pub open spec fn chunk_array(sb: Seq<u8>, length: int) -> Result<Seq<Chunk>, Error> {
    if length > SYSTEM_CHUNK_ARRAY_SIZE || SYS_CHUNK_ARRAY_OFFSET + length > sb.len() {
        Err(Error::InvalidSuperblock)
    } else {
        chunk_array_from(sb, length, 0, Seq::empty())
    }
}

pub fn parse_chunk_array(sb: &[u8], length: usize) -> (r: Result<Vec<Chunk>, Error>)
    ensures
        match chunk_array(sb@, length as int) {
            Ok(chunks) => r matches Ok(v) && v@ == chunks && v@.len() <= MAX_CHUNKS,
            Err(e) => r matches Err(f) && f == e,
        },
{
    if length > SYSTEM_CHUNK_ARRAY_SIZE || SYS_CHUNK_ARRAY_OFFSET + length > sb.len() {
        return Err(Error::InvalidSuperblock);
    }
    let mut chunks: Vec<Chunk> = Vec::new();
    let mut offset: usize = 0;
    while offset < length
        invariant
            length <= SYSTEM_CHUNK_ARRAY_SIZE,
            SYS_CHUNK_ARRAY_OFFSET + length <= sb@.len(),
            chunks@.len() <= MAX_CHUNKS,
            offset <= length + 113,
            chunk_array(sb@, length as int) == (if offset >= length {
                Ok(chunks@)
            } else {
                chunk_array_from(sb@, length as int, offset as int, chunks@)
            }),
        decreases length + 113 - offset,
    {
        if length - offset < 17 {
            return Err(Error::InvalidSuperblock);
        }
        let key_offset = le_u64(sb, SYS_CHUNK_ARRAY_OFFSET + offset + 9);
        let data_start = SYS_CHUNK_ARRAY_OFFSET + offset + 17;
        let data = slice_range(sb, data_start, SYS_CHUNK_ARRAY_OFFSET + length);
        let chunk = match parse_chunk(key_offset, data.as_slice()) {
            Ok(c) => c,
            Err(e) => return Err(e),
        };
        if 113 > length - offset {
            return Err(Error::InvalidSuperblock);
        }
        match add_chunk(&mut chunks, chunk) {
            Ok(()) => {},
            Err(e) => return Err(e),
        }
        offset = offset + 113;
    }
    Ok(chunks)
}

/// What a superblock says about the filesystem.
pub struct Superblock {
    pub fsid: Vec<u8>,
    pub sectorsize: u32,
    pub nodesize: u32,
    pub total_bytes: u64,
    pub generation: u64,
    pub root: u64,
    pub chunk_root: u64,
    pub csum_type: u16,
    pub chunks: Vec<Chunk>,
}

/// A superblock as values.
pub struct SuperblockView {
    pub fsid: Seq<u8>,
    pub sectorsize: int,
    pub nodesize: int,
    pub total_bytes: int,
    pub generation: int,
    pub root: int,
    pub chunk_root: int,
    pub chunks: Seq<Chunk>,
}

impl Superblock {
    pub open spec fn view(&self) -> SuperblockView {
        SuperblockView {
            fsid: self.fsid@,
            sectorsize: self.sectorsize as int,
            nodesize: self.nodesize as int,
            total_bytes: self.total_bytes as int,
            generation: self.generation as int,
            root: self.root as int,
            chunk_root: self.chunk_root as int,
            chunks: self.chunks@,
        }
    }
}

/// The superblock in `sb`, checked in this order: the magic, a CRC-32C checksum type,
/// the checksum over everything after the first 32 bytes, the supported geometry
/// (sector size 512 to 4096, 4 KiB nodes, a device that holds the superblock, no
/// incompatible features), non-zero tree roots, and the system chunk array.
pub open spec fn superblock_of(sb: Seq<u8>) -> Result<SuperblockView, Error> {
    let sectorsize = spec_le_u32(sb, 0x90);
    let nodesize = spec_le_u32(sb, 0x94);
    let total_bytes = spec_le_u64(sb, 0x70);
    let incompat = spec_le_u64(sb, 0xbc);
    let root = spec_le_u64(sb, 0x50);
    let chunk_root = spec_le_u64(sb, 0x58);
    if sb.subrange(0x40, 0x48) != magic() {
        Err(Error::InvalidSuperblock)
    } else if spec_le_u16(sb, 0xc4) != CSUM_CRC32C {
        Err(Error::UnsupportedChecksum)
    } else if spec_le_u32(sb, 0) != crc32c_spec(sb.subrange(32, sb.len() as int)) {
        Err(Error::ChecksumMismatch)
    } else if !(sectorsize == 512 || sectorsize == 1024 || sectorsize == 2048 || sectorsize == 4096)
        || nodesize != MAX_NODE_SIZE || sectorsize > nodesize || total_bytes < SUPERBLOCK_OFFSET
        + SUPERBLOCK_SIZE || incompat != 0 {
        Err(Error::UnsupportedFeature)
    } else if root == 0 || chunk_root == 0 {
        Err(Error::InvalidSuperblock)
    } else {
        match chunk_array(sb, spec_le_u32(sb, 0xa0)) {
            Err(e) => Err(e),
            Ok(chunks) => Ok(
                SuperblockView {
                    fsid: sb.subrange(0x20, 0x30),
                    sectorsize,
                    nodesize,
                    total_bytes,
                    generation: spec_le_u64(sb, 0x48),
                    root,
                    chunk_root,
                    chunks,
                },
            ),
        }
    }
}

pub fn parse_superblock(sb: &[u8]) -> (r: Result<Superblock, Error>)
    requires
        sb@.len() == SUPERBLOCK_SIZE,
    ensures
        match superblock_of(sb@) {
            Ok(v) => r matches Ok(s) && s@ == v && s.csum_type == CSUM_CRC32C && s.chunks@.len() <= MAX_CHUNKS,
            Err(e) => r matches Err(f) && f == e,
        },
{
    let magic = magic_bytes();
    if !bytes_equal_at(sb, 0x40, magic.as_slice()) {
        return Err(Error::InvalidSuperblock);
    }
    let csum_type = le_u16(sb, 0xc4);
    if csum_type != CSUM_CRC32C {
        return Err(Error::UnsupportedChecksum);
    }
    let covered = slice_range(sb, 32, sb.len());
    if le_u32(sb, 0) != crc32c(covered.as_slice()) {
        return Err(Error::ChecksumMismatch);
    }
    let sectorsize = le_u32(sb, 0x90);
    let nodesize = le_u32(sb, 0x94);
    let total_bytes = le_u64(sb, 0x70);
    let generation = le_u64(sb, 0x48);
    let incompat = le_u64(sb, 0xbc);
    if !(sectorsize == 512 || sectorsize == 1024 || sectorsize == 2048 || sectorsize == 4096)
        || nodesize != MAX_NODE_SIZE as u32 || sectorsize > nodesize || total_bytes < SUPERBLOCK_OFFSET
        + SUPERBLOCK_SIZE as u64 || incompat != 0 {
        return Err(Error::UnsupportedFeature);
    }
    let root = le_u64(sb, 0x50);
    let chunk_root = le_u64(sb, 0x58);
    if root == 0 || chunk_root == 0 {
        return Err(Error::InvalidSuperblock);
    }
    let chunks = match parse_chunk_array(sb, le_u32(sb, 0xa0) as usize) {
        Ok(c) => c,
        Err(e) => return Err(e),
    };
    Ok(
        Superblock {
            fsid: slice_range(sb, 0x20, 0x30),
            sectorsize,
            nodesize,
            total_bytes,
            generation,
            root,
            chunk_root,
            csum_type,
            chunks,
        },
    )
}

// ---------------------------------------------------------------------------
// Tree blocks

/// The checks on a tree block read for `logical`: its checksum, then the filesystem id,
/// the recorded address and a level of at most 8.
pub open spec fn tree_block_check(block: Seq<u8>, logical: u64, fsid: Seq<u8>) -> Result<(), Error> {
    if spec_le_u32(block, 0) != crc32c_spec(block.subrange(32, block.len() as int)) {
        Err(Error::ChecksumMismatch)
    } else if block.subrange(0x20, 0x30) != fsid || spec_le_u64(block, 0x30) != logical || block[0x64]
        > 8 {
        Err(Error::TreeCorrupt)
    } else {
        Ok(())
    }
}

pub fn check_tree_block(block: &[u8], logical: u64, fsid: &[u8]) -> (r: Result<(), Error>)
    requires
        block@.len() == MAX_NODE_SIZE,
        fsid@.len() == 16,
    ensures
        r == tree_block_check(block@, logical, fsid@),
{
    let covered = slice_range(block, 32, block.len());
    if le_u32(block, 0) != crc32c(covered.as_slice()) {
        return Err(Error::ChecksumMismatch);
    }
    if !bytes_equal_at(block, 0x20, fsid) || le_u64(block, 0x30) != logical || block[0x64] > 8 {
        return Err(Error::TreeCorrupt);
    }
    Ok(())
}

/// Item `index` of a leaf whose item headers end at `item_end`: its key and where its
/// data lies, which must be past the headers and inside the leaf.
pub open spec fn leaf_item_of(leaf: Seq<u8>, index: int, item_end: int) -> Result<(Key, int, int), Error> {
    let offset = TREE_HEADER_SIZE + index * LEAF_ITEM_SIZE;
    let data_offset = spec_le_u32(leaf, offset + 17);
    let data_size = spec_le_u32(leaf, offset + 21);
    if data_offset < item_end || data_offset > leaf.len() || data_size > leaf.len() - data_offset {
        Err(Error::TreeCorrupt)
    } else {
        Ok(
            (
                Key {
                    objectid: spec_le_u64(leaf, offset) as u64,
                    kind: leaf[offset + 8],
                    offset: spec_le_u64(leaf, offset + 9) as u64,
                },
                data_offset,
                data_size,
            ),
        )
    }
}

pub fn leaf_item(leaf: &[u8], index: usize, item_end: usize) -> (r: Result<(Key, usize, usize), Error>)
    requires
        TREE_HEADER_SIZE + (index + 1) * LEAF_ITEM_SIZE <= leaf@.len(),
    ensures
        match r {
            Ok((key, at, size)) => leaf_item_of(leaf@, index as int, item_end as int) == Ok::<
                (Key, int, int),
                Error,
            >((key, at as int, size as int)),
            Err(e) => leaf_item_of(leaf@, index as int, item_end as int) == Err::<(Key, int, int), Error>(e),
        },
{
    let _n = leaf.len();
    proof {
        assert(TREE_HEADER_SIZE + index * LEAF_ITEM_SIZE + LEAF_ITEM_SIZE <= leaf@.len()) by (nonlinear_arith)
            requires
                TREE_HEADER_SIZE + (index + 1) * LEAF_ITEM_SIZE <= leaf@.len(),
        ;
    }
    let offset = TREE_HEADER_SIZE + index * LEAF_ITEM_SIZE;
    let data_offset = le_u32(leaf, offset + 17) as usize;
    let data_size = le_u32(leaf, offset + 21) as usize;
    if data_offset < item_end || data_offset > leaf.len() || data_size > leaf.len() - data_offset {
        return Err(Error::TreeCorrupt);
    }
    let key = Key { objectid: le_u64(leaf, offset), kind: leaf[offset + 8], offset: le_u64(leaf, offset + 9) };
    Ok((key, data_offset, data_size))
}

// ---------------------------------------------------------------------------
// The device

/// A device of 512-byte sectors.
pub trait SectorReader {
    /// Whether `sector_view` describes what this reader hands back.
    spec fn described(&self) -> bool;

    /// The contents of sector `lba` of a described reader, or `None` when it cannot be
    /// read.
    spec fn sector_view(&self, lba: u64) -> Option<Seq<u8>>;

    /// The contents of sector `lba`, or `None` when the device fails.
    fn read_sector(&self, lba: u64) -> (r: Option<Vec<u8>>)
        ensures
            self.described() ==> match self.sector_view(lba) {
                None => r is None,
                Some(bytes) => r matches Some(v) && v@ == bytes,
            },
    ;
}

/// Once the sectors up to some point cannot be had, neither can any longer run.
proof fn lemma_sectors_stop<R: SectorReader>(reader: R, first: int, stop: nat, count: nat)
    requires
        sectors_of(reader, first, stop) is None,
        stop <= count,
    ensures
        sectors_of(reader, first, count) is None,
    decreases count - stop,
{
    if stop < count {
        lemma_sectors_stop(reader, first, stop, (count - 1) as nat);
    }
}

/// The bytes of `count` sectors from sector `first` of a described reader, or `None`
/// when one of them cannot be read or is not a whole sector.
pub open spec fn sectors_of<R: SectorReader>(reader: R, first: int, count: nat) -> Option<Seq<u8>>
    decreases count,
{
    if count == 0 {
        Some(Seq::empty())
    } else {
        match sectors_of(reader, first, (count - 1) as nat) {
            None => None,
            Some(prefix) => match reader.sector_view((first + count - 1) as u64) {
                Some(sector) => if sector.len() == SECTOR_SIZE {
                    Some(prefix + sector)
                } else {
                    None
                },
                None => None,
            },
        }
    }
}

/// `length` bytes from byte `offset` of the device, sector by sector; `Io` when either
/// is not sector-aligned, or the device fails or hands back a short sector.
pub fn read_sectors<R: SectorReader>(reader: &R, offset: u64, length: usize) -> (r: Result<Vec<u8>, Error>)
    ensures
        offset % (SECTOR_SIZE as u64) != 0 || length % SECTOR_SIZE != 0 ==> r == Err::<Vec<u8>, Error>(Error::Io),
        r matches Ok(v) ==> v@.len() == length,
        r matches Err(e) ==> e == Error::Io,
        reader.described() && offset % (SECTOR_SIZE as u64) == 0 && length % SECTOR_SIZE == 0 ==> match sectors_of(
            *reader,
            (offset / (SECTOR_SIZE as u64)) as int,
            (length / SECTOR_SIZE) as nat,
        ) {
            None => r == Err::<Vec<u8>, Error>(Error::Io),
            Some(bytes) => r matches Ok(v) && v@ == bytes,
        },
{
    if offset % (SECTOR_SIZE as u64) != 0 || length % SECTOR_SIZE != 0 {
        return Err(Error::Io);
    }
    let count = length / SECTOR_SIZE;
    let first = offset / (SECTOR_SIZE as u64);
    let mut out: Vec<u8> = Vec::new();
    let mut index: usize = 0;
    while index < count
        invariant
            index <= count,
            count * SECTOR_SIZE == length,
            out@.len() == index * SECTOR_SIZE,
            first <= u64::MAX / 512,
            first == offset / (SECTOR_SIZE as u64),
            count == length / SECTOR_SIZE,
            reader.described() ==> sectors_of(*reader, first as int, index as nat) == Some(out@),
        decreases count - index,
    {
        let sector = match reader.read_sector(first + index as u64) {
            Some(s) => s,
            None => {
                proof {
                    if reader.described() {
                        lemma_sectors_stop(*reader, first as int, (index + 1) as nat, count as nat);
                    }
                }
                return Err(Error::Io);
            },
        };
        if sector.len() != SECTOR_SIZE {
            proof {
                if reader.described() {
                    lemma_sectors_stop(*reader, first as int, (index + 1) as nat, count as nat);
                }
            }
            return Err(Error::Io);
        }
        let ghost before = out@;
        let mut k: usize = 0;
        while k < SECTOR_SIZE
            invariant
                k <= SECTOR_SIZE,
                sector@.len() == SECTOR_SIZE,
                out@.len() == index * SECTOR_SIZE + k,
                index < count,
                count * SECTOR_SIZE == length,
                before.len() == index * SECTOR_SIZE,
                out@ == before + sector@.take(k as int),
            decreases SECTOR_SIZE - k,
        {
            out.push(sector[k]);
            proof {
                assert(before + sector@.take(k + 1) =~= (before + sector@.take(k as int)).push(sector@[k as int]));
            }
            k = k + 1;
        }
        proof {
            assert(sector@.take(SECTOR_SIZE as int) =~= sector@);
        }
        proof {
            assert((index + 1) * SECTOR_SIZE <= count * SECTOR_SIZE) by (nonlinear_arith)
                requires
                    index < count,
            ;
        }
        index = index + 1;
    }
    Ok(out)
}

// ---------------------------------------------------------------------------
// Walking trees

/// What a tree walk does with each leaf item, for a question that stays fixed during the
/// walk; `visit` answers whether the walk may stop. A visitor's effect is named: `state`
/// is what it has gathered, and `step` what one item does to it, given the question as
/// `query_view` sees it.
pub trait ItemVisitor {
    type Query;

    type QueryView;

    type State;

    spec fn inv(&self, query: &Self::Query) -> bool;

    spec fn query_view(query: &Self::Query) -> Self::QueryView;

    spec fn state(&self) -> Self::State;

    spec fn step(state: Self::State, query: Self::QueryView, key: Key, data: Seq<u8>) -> (Self::State, Result<
        bool,
        Error,
    >);

    fn visit(&mut self, query: &Self::Query, key: Key, data: &[u8]) -> (r: Result<bool, Error>)
        requires
            old(self).inv(query),
        ensures
            final(self).inv(query),
            r matches Err(e) ==> lookup_error(e),
            (final(self).state(), r) == Self::step(old(self).state(), Self::query_view(query), key, data@),
    ;
}

/// Finds the root item of the tree the query names.
pub struct RootFinder {
    pub result: Option<RootItem>,
}

impl ItemVisitor for RootFinder {
    type Query = u64;

    type QueryView = u64;

    type State = Option<RootItem>;

    open spec fn inv(&self, query: &u64) -> bool {
        self.result matches Some(item) ==> item.id == *query
    }

    open spec fn query_view(query: &u64) -> u64 {
        *query
    }

    open spec fn state(&self) -> Option<RootItem> {
        self.result
    }

    /// The root item of the tree sought, at its key, ends the walk.
    open spec fn step(state: Option<RootItem>, query: u64, key: Key, data: Seq<u8>) -> (Option<RootItem>, Result<bool, Error>) {
        if key.kind == ROOT_ITEM_KEY && key.objectid == query {
            match root_item_of(query, data) {
                Ok(item) => (Some(item), Ok(true)),
                Err(e) => (state, Err(e)),
            }
        } else {
            (state, Ok(false))
        }
    }

    fn visit(&mut self, query: &u64, key: Key, data: &[u8]) -> (r: Result<bool, Error>) {
        if key.kind == ROOT_ITEM_KEY && key.objectid == *query {
            match parse_root_item(*query, data) {
                Ok(item) => {
                    self.result = Some(item);
                    Ok(true)
                },
                Err(e) => Err(e),
            }
        } else {
            Ok(false)
        }
    }
}

/// Finds the inode item of the object the query names.
pub struct InodeFinder {
    pub result: Option<Inode>,
}

impl ItemVisitor for InodeFinder {
    type Query = u64;

    type QueryView = u64;

    type State = Option<Inode>;

    open spec fn inv(&self, query: &u64) -> bool {
        true
    }

    open spec fn query_view(query: &u64) -> u64 {
        *query
    }

    open spec fn state(&self) -> Option<Inode> {
        self.result
    }

    /// The inode item of the object sought ends the walk.
    open spec fn step(state: Option<Inode>, query: u64, key: Key, data: Seq<u8>) -> (Option<Inode>, Result<bool, Error>) {
        if key.objectid == query && key.kind == INODE_ITEM_KEY {
            match inode_of(data) {
                Ok(inode) => (Some(inode), Ok(true)),
                Err(e) => (state, Err(e)),
            }
        } else {
            (state, Ok(false))
        }
    }

    fn visit(&mut self, query: &u64, key: Key, data: &[u8]) -> (r: Result<bool, Error>) {
        if key.objectid == *query && key.kind == INODE_ITEM_KEY {
            match parse_inode(data) {
                Ok(inode) => {
                    self.result = Some(inode);
                    Ok(true)
                },
                Err(e) => Err(e),
            }
        } else {
            Ok(false)
        }
    }
}

/// Finds the entry that names the query's target in the query's directory.
pub struct DirFinder {
    pub result: Option<u64>,
}

impl ItemVisitor for DirFinder {
    type Query = (u64, Vec<u8>);

    type QueryView = (u64, Seq<u8>);

    type State = Option<u64>;

    open spec fn inv(&self, query: &(u64, Vec<u8>)) -> bool {
        true
    }

    open spec fn query_view(query: &(u64, Vec<u8>)) -> (u64, Seq<u8>) {
        (query.0, query.1@)
    }

    open spec fn state(&self) -> Option<u64> {
        self.result
    }

    /// A directory item of the directory sought that holds an entry of the name sought
    /// ends the walk.
    open spec fn step(state: Option<u64>, query: (u64, Seq<u8>), key: Key, data: Seq<u8>) -> (Option<u64>, Result<bool, Error>) {
        if key.objectid == query.0 && key.kind == DIR_ITEM_KEY {
            match dir_lookup(data, 0, query.1) {
                Ok(Some(child)) => (Some(child), Ok(true)),
                Ok(None) => (state, Ok(false)),
                Err(e) => (state, Err(e)),
            }
        } else {
            (state, Ok(false))
        }
    }

    fn visit(&mut self, query: &(u64, Vec<u8>), key: Key, data: &[u8]) -> (r: Result<bool, Error>) {
        if key.objectid != query.0 || key.kind != DIR_ITEM_KEY {
            return Ok(false);
        }
        proof {
            lemma_dir_lookup_error(data@, 0, query.1@);
        }
        match find_dir_record(data, query.1.as_slice()) {
            Ok(Some(child)) => {
                self.result = Some(child);
                Ok(true)
            },
            Ok(None) => Ok(false),
            Err(e) => Err(e),
        }
    }
}

/// Gathers the chunk items of the chunk tree.
pub struct ChunkCollector {
    pub chunks: Vec<Chunk>,
}

impl ItemVisitor for ChunkCollector {
    type Query = ();

    type QueryView = ();

    type State = Seq<Chunk>;

    open spec fn inv(&self, query: &()) -> bool {
        self.chunks@.len() <= MAX_CHUNKS
    }

    open spec fn query_view(query: &()) -> () {
        ()
    }

    open spec fn state(&self) -> Seq<Chunk> {
        self.chunks@
    }

    /// Each chunk item is added to the chunks gathered.
    open spec fn step(state: Seq<Chunk>, query: (), key: Key, data: Seq<u8>) -> (Seq<Chunk>, Result<bool, Error>) {
        if key.kind == CHUNK_ITEM_KEY {
            match chunk_of(key.offset, data) {
                Err(e) => (state, Err(e)),
                Ok(chunk) => match chunks_added(state, chunk) {
                    Ok(next) => (next, Ok(false)),
                    Err(e) => (state, Err(e)),
                },
            }
        } else {
            (state, Ok(false))
        }
    }

    fn visit(&mut self, query: &(), key: Key, data: &[u8]) -> (r: Result<bool, Error>) {
        if key.kind == CHUNK_ITEM_KEY {
            let chunk = match parse_chunk(key.offset, data) {
                Ok(c) => c,
                Err(e) => return Err(e),
            };
            match add_chunk(&mut self.chunks, chunk) {
                Ok(()) => {},
                Err(e) => return Err(e),
            }
        }
        Ok(false)
    }
}

/// The subvolume a root item describes.
pub open spec fn subvolume_of(root: RootItem) -> Subvolume {
    Subvolume {
        id: root.id,
        root_dirid: root.root_dirid,
        bytenr: root.bytenr,
        read_only: root.flags & ROOT_SUBVOL_RDONLY != 0,
        snapshot: root.snapshot,
    }
}

/// Gathers subvolumes, up to the query's count of them.
pub struct SubvolumeCollector {
    pub found: Vec<Subvolume>,
}

impl ItemVisitor for SubvolumeCollector {
    type Query = usize;

    type QueryView = usize;

    type State = Seq<Subvolume>;

    open spec fn inv(&self, query: &usize) -> bool {
        &&& self.found@.len() <= *query
        &&& forall|i: int| 0 <= i < self.found@.len() ==> self.found@[i].id >= BTRFS_FIRST_FREE_OBJECTID
    }

    open spec fn query_view(query: &usize) -> usize {
        *query
    }

    open spec fn state(&self) -> Seq<Subvolume> {
        self.found@
    }

    /// Each root item of a subvolume (id from `BTRFS_FIRST_FREE_OBJECTID` on) is added,
    /// until the query's count is reached, which ends the walk.
    open spec fn step(state: Seq<Subvolume>, query: usize, key: Key, data: Seq<u8>) -> (Seq<Subvolume>, Result<bool, Error>) {
        if key.kind != ROOT_ITEM_KEY || key.objectid < BTRFS_FIRST_FREE_OBJECTID {
            (state, Ok(false))
        } else if state.len() >= query {
            (state, Ok(true))
        } else {
            match root_item_of(key.objectid, data) {
                Err(e) => (state, Err(e)),
                Ok(root) => (state.push(subvolume_of(root)), Ok(false)),
            }
        }
    }

    fn visit(&mut self, query: &usize, key: Key, data: &[u8]) -> (r: Result<bool, Error>) {
        if key.kind != ROOT_ITEM_KEY || key.objectid < BTRFS_FIRST_FREE_OBJECTID {
            return Ok(false);
        }
        if self.found.len() >= *query {
            return Ok(true);
        }
        let root = match parse_root_item(key.objectid, data) {
            Ok(r) => r,
            Err(e) => return Err(e),
        };
        self.found.push(
            Subvolume {
                id: root.id,
                root_dirid: root.root_dirid,
                bytenr: root.bytenr,
                read_only: root.flags & ROOT_SUBVOL_RDONLY != 0,
                snapshot: root.snapshot,
            },
        );
        Ok(false)
    }
}

/// Reads the inline extent at offset zero of the query's file, of the query's size.
pub struct ExtentReader {
    pub contents: Option<Vec<u8>>,
}

impl ItemVisitor for ExtentReader {
    type Query = (u64, usize);

    type QueryView = (u64, usize);

    type State = Option<Seq<u8>>;

    open spec fn inv(&self, query: &(u64, usize)) -> bool {
        self.contents matches Some(v) ==> v@.len() == query.1
    }

    open spec fn query_view(query: &(u64, usize)) -> (u64, usize) {
        *query
    }

    open spec fn state(&self) -> Option<Seq<u8>> {
        match self.contents {
            Some(v) => Some(v@),
            None => None,
        }
    }

    /// The file's extent item at offset zero, read as an inline extent of the file's
    /// size, ends the walk.
    open spec fn step(state: Option<Seq<u8>>, query: (u64, usize), key: Key, data: Seq<u8>) -> (Option<Seq<u8>>, Result<bool, Error>) {
        if key.objectid == query.0 && key.kind == EXTENT_DATA_KEY && key.offset == 0 {
            match inline_extent(data, query.1 as int) {
                Ok(contents) => (Some(contents), Ok(true)),
                Err(e) => (state, Err(e)),
            }
        } else {
            (state, Ok(false))
        }
    }

    fn visit(&mut self, query: &(u64, usize), key: Key, data: &[u8]) -> (r: Result<bool, Error>) {
        if key.objectid != query.0 || key.kind != EXTENT_DATA_KEY || key.offset != 0 {
            return Ok(false);
        }
        match read_inline_extent(data, query.1) {
            Ok(contents) => {
                self.contents = Some(contents);
                Ok(true)
            },
            Err(e) => Err(e),
        }
    }
}

/// A leaf item: its key and its data.
pub type Item = (Key, Seq<u8>);

/// The items of a leaf from item `index` on, up to `n`, whose headers end at
/// `item_end`, and the fault of the first item whose data lies outside the leaf (the
/// items stop there).
pub open spec fn leaf_items_from(leaf: Seq<u8>, index: int, n: int, item_end: int) -> (Seq<Item>, Option<Error>)
    decreases n - index,
{
    if index >= n {
        (Seq::empty(), None)
    } else {
        match leaf_item_of(leaf, index, item_end) {
            Err(e) => (Seq::empty(), Some(e)),
            Ok((key, at, size)) => {
                let rest = leaf_items_from(leaf, index + 1, n, item_end);
                (seq![(key, leaf.subrange(at, at + size))] + rest.0, rest.1)
            },
        }
    }
}

/// The items of a leaf, in order, and the fault that stops them: too many items for the
/// leaf, or an item whose data lies outside it.
pub open spec fn leaf_items(leaf: Seq<u8>) -> (Seq<Item>, Option<Error>) {
    let n = spec_le_u32(leaf, 0x60);
    if n > (leaf.len() - TREE_HEADER_SIZE) / LEAF_ITEM_SIZE as int {
        (Seq::empty(), Some(Error::TreeCorrupt))
    } else {
        leaf_items_from(leaf, 0, n, TREE_HEADER_SIZE + n * LEAF_ITEM_SIZE)
    }
}

/// A visitor in state `state` handed `items` in order, stopping at the first that
/// ends the walk or fails: its final state and the answer of the last visit (`Ok(false)`
/// when every item was visited and none ended the walk).
pub open spec fn visit_all<V: ItemVisitor>(state: V::State, query: V::QueryView, items: Seq<Item>) -> (V::State, Result<
    bool,
    Error,
>)
    decreases items.len(),
{
    if items.len() == 0 {
        (state, Ok(false))
    } else {
        let (next, answer) = V::step(state, query, items[0].0, items[0].1);
        if answer == Ok::<bool, Error>(false) {
            visit_all::<V>(next, query, items.drop_first())
        } else {
            (next, answer)
        }
    }
}

/// `visit_all` and then, when the visitor neither stopped nor failed, the fault that
/// ended the items, if any.
pub open spec fn visit_then<V: ItemVisitor>(
    state: V::State,
    query: V::QueryView,
    items: Seq<Item>,
    fault: Option<Error>,
) -> (V::State, Result<bool, Error>) {
    let (next, answer) = visit_all::<V>(state, query, items);
    if answer == Ok::<bool, Error>(false) {
        (
            next,
            match fault {
                Some(e) => Err(e),
                None => Ok(false),
            },
        )
    } else {
        (next, answer)
    }
}

/// Visiting `a` then `b` is visiting `a + b`, unless the visits of `a` already stopped.
pub proof fn lemma_visit_all_concat<V: ItemVisitor>(state: V::State, query: V::QueryView, a: Seq<Item>, b: Seq<Item>)
    ensures
        visit_all::<V>(state, query, a + b) == (if visit_all::<V>(state, query, a).1 == Ok::<bool, Error>(false) {
            visit_all::<V>(visit_all::<V>(state, query, a).0, query, b)
        } else {
            visit_all::<V>(state, query, a)
        }),
    decreases a.len(),
{
    if a.len() == 0 {
        assert(a + b =~= b);
    } else {
        assert((a + b)[0] == a[0]);
        assert((a + b).drop_first() =~= a.drop_first() + b);
        let (next, answer) = V::step(state, query, a[0].0, a[0].1);
        lemma_visit_all_concat::<V>(next, query, a.drop_first(), b);
    }
}

/// Visiting one item is one step.
pub proof fn lemma_visit_one<V: ItemVisitor>(state: V::State, query: V::QueryView, item: Item)
    ensures
        visit_all::<V>(state, query, seq![item]) == V::step(state, query, item.0, item.1),
{
    let one = seq![item];
    assert(one[0] == item);
    assert(one.drop_first() =~= Seq::<Item>::empty());
    let (next, answer) = V::step(state, query, item.0, item.1);
    assert(visit_all::<V>(next, query, Seq::<Item>::empty()) == (next, Ok::<bool, Error>(false)));
}

/// Hands each item of `leaf` to the visitor until it asks to stop; `TreeCorrupt` when an
/// item's data lies outside the leaf.
fn each_item<V: ItemVisitor>(leaf: &[u8], query: &V::Query, visitor: &mut V) -> (r: Result<bool, Error>)
    requires
        old(visitor).inv(query),
        leaf@.len() >= TREE_HEADER_SIZE,
    ensures
        final(visitor).inv(query),
        r matches Err(e) ==> lookup_error(e),
        (final(visitor).state(), r) == visit_then::<V>(
            old(visitor).state(),
            V::query_view(query),
            leaf_items(leaf@).0,
            leaf_items(leaf@).1,
        ),
{
    let ghost q = V::query_view(query);
    let ghost s0 = visitor.state();
    let nritems = le_u32(leaf, 0x60) as usize;
    if nritems > (leaf.len() - TREE_HEADER_SIZE) / LEAF_ITEM_SIZE {
        return Err(Error::TreeCorrupt);
    }
    proof {
        let room: int = leaf@.len() - TREE_HEADER_SIZE;
        assert(nritems * 25 <= room) by (nonlinear_arith)
            requires
                nritems <= room / 25,
                room >= 0,
        ;
    }
    let item_end = TREE_HEADER_SIZE + nritems * LEAF_ITEM_SIZE;
    let ghost all = leaf_items(leaf@);
    let ghost mut done: Seq<Item> = Seq::empty();
    proof {
        assert(all.0 =~= done + leaf_items_from(leaf@, 0, nritems as int, item_end as int).0);
    }
    let mut index: usize = 0;
    while index < nritems
        invariant
            visitor.inv(query),
            index <= nritems,
            nritems == spec_le_u32(leaf@, 0x60),
            nritems <= (leaf@.len() - TREE_HEADER_SIZE) / LEAF_ITEM_SIZE as int,
            item_end == TREE_HEADER_SIZE + nritems * LEAF_ITEM_SIZE,
            item_end <= leaf@.len(),
            leaf@.len() <= usize::MAX,
            q == V::query_view(query),
            s0 == old(visitor).state(),
            all == leaf_items(leaf@),
            all.0 == done + leaf_items_from(leaf@, index as int, nritems as int, item_end as int).0,
            all.1 == leaf_items_from(leaf@, index as int, nritems as int, item_end as int).1,
            visit_all::<V>(s0, q, done) == (visitor.state(), Ok::<bool, Error>(false)),
        decreases nritems - index,
    {
        proof {
            assert(TREE_HEADER_SIZE + (index + 1) * LEAF_ITEM_SIZE <= item_end) by (nonlinear_arith)
                requires
                    index < nritems,
                    item_end == TREE_HEADER_SIZE + nritems * LEAF_ITEM_SIZE,
            ;
        }
        let ghost rest = leaf_items_from(leaf@, index as int, nritems as int, item_end as int);
        let (key, at, size) = match leaf_item(leaf, index, item_end) {
            Ok(item) => item,
            Err(e) => {
                proof {
                    assert(rest.0 =~= Seq::<Item>::empty());
                    assert(all.0 =~= done);
                }
                return Err(e);
            },
        };
        let data = slice_range(leaf, at, at + size);
        let ghost st = visitor.state();
        let ghost item: Item = (key, data@);
        let ghost tail = leaf_items_from(leaf@, index + 1, nritems as int, item_end as int);
        let answer = visitor.visit(query, key, data.as_slice());
        proof {
            assert(rest.0 =~= seq![item] + tail.0);
            lemma_visit_one::<V>(st, q, item);
            lemma_visit_all_concat::<V>(s0, q, done, seq![item]);
            lemma_visit_all_concat::<V>(s0, q, done, seq![item] + tail.0);
            lemma_visit_all_concat::<V>(st, q, seq![item], tail.0);
            assert(all.0 =~= done.push(item) + tail.0);
            assert(done + seq![item] =~= done.push(item));
        }
        match answer {
            Ok(true) => return Ok(true),
            Ok(false) => {},
            Err(e) => return Err(e),
        }
        proof {
            done = done.push(item);
        }
        index = index + 1;
    }
    proof {
        assert(done + Seq::<Item>::empty() =~= done);
    }
    Ok(false)
}

// ---------------------------------------------------------------------------
// A mounted filesystem

/// A read-only btrfs filesystem on a sector device.
pub struct Mount<R> {
    pub reader: R,
    pub fsid: Vec<u8>,
    pub sectorsize: u32,
    pub nodesize: u32,
    pub total_bytes: u64,
    pub generation: u64,
    pub root: u64,
    pub chunk_root: u64,
    pub csum_type: u16,
    pub chunks: Vec<Chunk>,
}

/// What reading a file makes of its inode, for an output of `capacity` bytes:
/// directories and unreadable files are refused, and so is a file larger than the output.
pub open spec fn file_check_spec(inode: Inode, capacity: int) -> Result<usize, Error> {
    if inode.mode & 0xf000 == INODE_DIRECTORY {
        Err(Error::IsDirectory)
    } else if inode.mode & 0o444 == 0 {
        Err(Error::PermissionDenied)
    } else if inode.size > capacity {
        Err(Error::BufferTooSmall)
    } else {
        Ok(inode.size as usize)
    }
}

/// Decides whether the file with `inode` can be read into `capacity` bytes, and how many.
pub fn file_check(inode: Inode, capacity: usize) -> (r: Result<usize, Error>)
    ensures
        r == file_check_spec(inode, capacity as int),
{
    if inode.mode & 0xf000 == INODE_DIRECTORY {
        return Err(Error::IsDirectory);
    }
    if inode.mode & 0o444 == 0 {
        return Err(Error::PermissionDenied);
    }
    if inode.size > capacity as u64 {
        return Err(Error::BufferTooSmall);
    }
    Ok(inode.size as usize)
}

/// The mode and size `stat` reports for an inode.
pub open spec fn file_info_of(inode: Inode) -> FileInfo {
    FileInfo { mode: inode.mode, size: inode.size, directory: inode.mode & 0xf000 == INODE_DIRECTORY }
}

/// Copies a file's `size` bytes of inline data into the front of `output`: an empty file
/// needs none, and a file with data but no inline extent is refused.
pub fn fill_from_extent(contents: Option<Vec<u8>>, size: usize, output: &mut Vec<u8>) -> (r: Result<usize, Error>)
    requires
        size <= old(output)@.len(),
        contents matches Some(c) ==> c@.len() == size,
    ensures
        final(output)@.len() == old(output)@.len(),
        size == 0 ==> r == Ok::<usize, Error>(0) && final(output)@ == old(output)@,
        size > 0 && contents is None ==> r == Err::<usize, Error>(Error::UnsupportedFeature) && final(output)@
            == old(output)@,
        size > 0 ==> match contents {
            Some(c) => r == Ok::<usize, Error>(size) && final(output)@ == c@ + old(output)@.skip(size as int),
            None => true,
        },
{
    if size == 0 {
        return Ok(0);
    }
    match contents {
        None => Err(Error::UnsupportedFeature),
        Some(contents) => {
            let mut k: usize = 0;
            while k < size
                invariant
                    contents@.len() == size,
                    size <= output@.len(),
                    output@.len() == old(output)@.len(),
                    k <= size,
                    forall|j: int| 0 <= j < k ==> output@[j] == contents@[j],
                    forall|j: int| k <= j < output@.len() ==> output@[j] == old(output)@[j],
                decreases size - k,
            {
                output.set(k, contents[k]);
                k = k + 1;
            }
            assert(output@ =~= contents@ + old(output)@.skip(size as int));
            Ok(size)
        },
    }
}

/// The `length` bytes at device offset `offset` a described reader gives: `Io` unless
/// both are sector-aligned, the range ends within the filesystem, and every sector can
/// be read.
pub open spec fn physical_bytes<R: SectorReader>(m: Mount<R>, offset: u64, length: int) -> Result<Seq<u8>, Error> {
    if offset + length > u64::MAX || offset % (SECTOR_SIZE as u64) != 0 || offset + length > m.total_bytes
        || length % (SECTOR_SIZE as int) != 0 {
        Err(Error::Io)
    } else {
        match sectors_of(m.reader, (offset / (SECTOR_SIZE as u64)) as int, (length / (SECTOR_SIZE as int)) as nat) {
            None => Err(Error::Io),
            Some(bytes) => Ok(bytes),
        }
    }
}

/// The tree block at `logical`: both its ends mapped through the chunks to one
/// contiguous device range, read, and checked.
pub open spec fn tree_block<R: SectorReader>(m: Mount<R>, logical: u64) -> Result<Seq<u8>, Error> {
    let size = m.nodesize as int;
    match logical_to_physical(m.chunks@, logical) {
        Err(e) => Err(e),
        Ok(physical) => if logical + size > u64::MAX {
            Err(Error::TreeCorrupt)
        } else {
            match logical_to_physical(m.chunks@, (logical + size - 1) as u64) {
                Err(e) => Err(e),
                Ok(mapped_end) => if physical > u64::MAX - (size - 1) || mapped_end != physical + (size - 1) {
                    Err(Error::UnsupportedFeature)
                } else {
                    match physical_bytes(m, physical, size) {
                        Err(e) => Err(e),
                        Ok(block) => match tree_block_check(block, logical, m.fsid@) {
                            Ok(()) => Ok(block),
                            Err(e) => Err(e),
                        },
                    }
                },
            }
        },
    }
}

/// Child pointer `index` of an interior tree block.
pub open spec fn child_of(block: Seq<u8>, index: int) -> u64 {
    spec_le_u64(block, TREE_HEADER_SIZE + index * NODE_PTR_SIZE + 17) as u64
}

/// The first `n` child pointers of an interior block, last first: pushed so, the
/// first child is walked next.
pub open spec fn children_rev(block: Seq<u8>, n: int) -> Seq<u64> {
    Seq::new(n as nat, |k: int| child_of(block, n - 1 - k))
}

/// The leaf items a depth-first, left-to-right walk reaches with the blocks `pending`
/// still to walk (the last one next) after `visits` blocks, and the fault that ends the
/// walk: more than `MAX_TREE_VISITS` blocks, a block that cannot be read or checked, too
/// many items for a block, a bad leaf item, or an interior block too deep or with too
/// many children to keep.
pub open spec fn walk_from<R: SectorReader>(m: Mount<R>, pending: Seq<u64>, visits: int) -> (Seq<Item>, Option<Error>)
    decreases MAX_TREE_VISITS - visits,
{
    if pending.len() == 0 {
        (Seq::empty(), None)
    } else if visits < 0 || visits + 1 > MAX_TREE_VISITS {
        (Seq::empty(), Some(Error::TreeCorrupt))
    } else {
        match tree_block(m, pending.last()) {
            Err(e) => (Seq::empty(), Some(e)),
            Ok(block) => {
                let n = spec_le_u32(block, 0x60);
                let level = block[0x64];
                let capacity: int = if level == 0 {
                    (MAX_NODE_SIZE - TREE_HEADER_SIZE) / (LEAF_ITEM_SIZE as int)
                } else {
                    (MAX_NODE_SIZE - TREE_HEADER_SIZE) / (NODE_PTR_SIZE as int)
                };
                if n > capacity {
                    (Seq::empty(), Some(Error::TreeCorrupt))
                } else if level == 0 {
                    let leaf = leaf_items(block);
                    if leaf.1 is Some {
                        leaf
                    } else {
                        let rest = walk_from(m, pending.drop_last(), visits + 1);
                        (leaf.0 + rest.0, rest.1)
                    }
                } else if level > 8 || pending.len() - 1 + n > MAX_PENDING_NODES {
                    (Seq::empty(), Some(Error::UnsupportedFeature))
                } else {
                    walk_from(m, pending.drop_last() + children_rev(block, n), visits + 1)
                }
            },
        }
    }
}

/// A walk's end: success once the visitor stopped it or the items ran out, otherwise
/// the fault.
pub open spec fn walk_end<S>(visited: (S, Result<bool, Error>)) -> (S, Result<(), Error>) {
    (
        visited.0,
        match visited.1 {
            Ok(_) => Ok(()),
            Err(e) => Err(e),
        },
    )
}

/// What `walk_items` makes of the tree rooted at `root` with a visitor in `state`: the
/// visitor's final state and the walk's answer.
pub open spec fn walk_outcome<R: SectorReader, V: ItemVisitor>(m: Mount<R>, root: u64, state: V::State, query: V::QueryView) -> (
    V::State,
    Result<(), Error>,
) {
    let items = walk_from(m, seq![root], 0);
    walk_end(visit_then::<V>(state, query, items.0, items.1))
}

/// The root item of tree `id` the root tree holds: the walk's fault, or `NotFound` when
/// the walk ends without one.
pub open spec fn root_lookup<R: SectorReader>(m: Mount<R>, id: u64) -> Result<RootItem, Error> {
    match walk_outcome::<R, RootFinder>(m, m.root, None, id) {
        (_, Err(e)) => Err(e),
        (Some(item), Ok(_)) => Ok(item),
        (None, Ok(_)) => Err(Error::NotFound),
    }
}

/// The inode item of object `inode` in the tree at `root`, as `root_lookup` finds roots.
pub open spec fn inode_lookup<R: SectorReader>(m: Mount<R>, root: u64, inode: u64) -> Result<Inode, Error> {
    match walk_outcome::<R, InodeFinder>(m, root, None, inode) {
        (_, Err(e)) => Err(e),
        (Some(found), Ok(_)) => Ok(found),
        (None, Ok(_)) => Err(Error::NotFound),
    }
}

/// The object directory `parent` of the tree at `root` names `name`: the directory's
/// inode first (`NotDirectory` when it is none), then the first directory item of it
/// that holds the name.
pub open spec fn entry_lookup<R: SectorReader>(m: Mount<R>, root: u64, parent: u64, name: Seq<u8>) -> Result<u64, Error> {
    match inode_lookup(m, root, parent) {
        Err(e) => Err(e),
        Ok(inode) => if inode.mode & 0xf000 != INODE_DIRECTORY {
            Err(Error::NotDirectory)
        } else {
            match walk_outcome::<R, DirFinder>(m, root, None, (parent, name)) {
                (_, Err(e)) => Err(e),
                (Some(child), Ok(_)) => Ok(child),
                (None, Ok(_)) => Err(Error::NotFound),
            }
        },
    }
}

/// The object the names `parts` lead to from directory `inode` of the tree at `root`.
pub open spec fn parts_lookup<R: SectorReader>(m: Mount<R>, root: u64, inode: u64, parts: Seq<Seq<u8>>) -> Result<u64, Error>
    decreases parts.len(),
{
    if parts.len() == 0 {
        Ok(inode)
    } else {
        match entry_lookup(m, root, inode, parts[0]) {
            Err(e) => Err(e),
            Ok(child) => parts_lookup(m, root, child, parts.drop_first()),
        }
    }
}

/// The filesystem tree's root and the object `path` names in it: `InvalidPath` for a
/// path that is not absolute and clean; then the filesystem tree's root item, and the
/// path's names followed from its root directory.
pub open spec fn path_lookup<R: SectorReader>(m: Mount<R>, path: Seq<u8>) -> Result<(u64, u64), Error> {
    match path_components(path) {
        None => Err(Error::InvalidPath),
        Some(parts) => match root_lookup(m, BTRFS_FS_TREE_OBJECTID) {
            Err(e) => Err(e),
            Ok(root) => match parts_lookup(m, root.bytenr, root.root_dirid, parts) {
                Err(e) => Err(e),
                Ok(inode) => Ok((root.bytenr, inode)),
            },
        },
    }
}

/// What `stat` gives for `path`: the file information of the inode it names.
pub open spec fn stat_of<R: SectorReader>(m: Mount<R>, path: Seq<u8>) -> Result<FileInfo, Error> {
    match path_lookup(m, path) {
        Err(e) => Err(e),
        Ok((root, inode)) => match inode_lookup(m, root, inode) {
            Err(e) => Err(e),
            Ok(found) => Ok(file_info_of(found)),
        },
    }
}

/// What reading `path` into `capacity` bytes gives: the file's size and contents. The
/// path names an inode, which must be a readable file that fits; its contents are the
/// inline extent at offset zero of its size (`UnsupportedFeature` when a non-empty file
/// has none).
pub open spec fn file_contents<R: SectorReader>(m: Mount<R>, path: Seq<u8>, capacity: int) -> Result<(usize, Seq<u8>), Error> {
    match path_lookup(m, path) {
        Err(e) => Err(e),
        Ok((root, inode_number)) => match inode_lookup(m, root, inode_number) {
            Err(e) => Err(e),
            Ok(inode) => match file_check_spec(inode, capacity) {
                Err(e) => Err(e),
                Ok(size) => match walk_outcome::<R, ExtentReader>(m, root, None, (inode_number, size)) {
                    (_, Err(e)) => Err(e),
                    (contents, Ok(_)) => if size == 0 {
                        Ok((0, Seq::empty()))
                    } else {
                        match contents {
                            None => Err(Error::UnsupportedFeature),
                            Some(bytes) => Ok((size, bytes)),
                        }
                    },
                },
            },
        },
    }
}

/// The subvolumes the root tree lists, in walk order, at most `capacity` of them.
pub open spec fn subvolume_list<R: SectorReader>(m: Mount<R>, capacity: usize) -> Result<Seq<Subvolume>, Error> {
    match walk_outcome::<R, SubvolumeCollector>(m, m.root, Seq::empty(), capacity) {
        (_, Err(e)) => Err(e),
        (found, Ok(_)) => Ok(found),
    }
}

/// Extent reads only ever hold contents of the size sought.
proof fn lemma_extent_sizes(state: Option<Seq<u8>>, query: (u64, usize), items: Seq<Item>)
    requires
        state matches Some(b) ==> b.len() == query.1,
    ensures
        visit_all::<ExtentReader>(state, query, items).0 matches Some(b) ==> b.len() == query.1,
    decreases items.len(),
{
    if items.len() > 0 {
        let (next, answer) = ExtentReader::step(state, query, items[0].0, items[0].1);
        lemma_extent_sizes(next, query, items.drop_first());
    }
}

/// Reading a file gives back the file: when a read of `path` succeeds with `n` bytes,
/// `stat` of the same path names a file (no directory) of size `n`, the bytes read are
/// `n` of them, and they fit the buffer.
pub proof fn law_read_gives_the_file<R: SectorReader>(m: Mount<R>, path: Seq<u8>, capacity: int)
    requires
        0 <= capacity <= usize::MAX,
    ensures
        file_contents(m, path, capacity) matches Ok((n, bytes)) ==> {
            &&& bytes.len() == n
            &&& n <= capacity
            &&& stat_of(m, path) matches Ok(info) && info.size == n && !info.directory
        },
{
    if let Ok((root, inode_number)) = path_lookup(m, path) {
        if let Ok(inode) = inode_lookup(m, root, inode_number) {
            if let Ok(size) = file_check_spec(inode, capacity) {
                let items = walk_from(m, seq![root], 0);
                lemma_extent_sizes(None, (inode_number, size), items.0);
                let visited = visit_all::<ExtentReader>(None, (inode_number, size), items.0);
                assert(visit_then::<ExtentReader>(None, (inode_number, size), items.0, items.1).0 == visited.0);
                assert(size == inode.size);
                assert(stat_of(m, path) == Ok::<FileInfo, Error>(file_info_of(inode)));
            }
        }
    }
}

/// Visits that went through `done` without stopping go on as the rest would alone.
pub proof fn lemma_visit_then_after<V: ItemVisitor>(
    state: V::State,
    query: V::QueryView,
    done: Seq<Item>,
    rest: Seq<Item>,
    fault: Option<Error>,
)
    requires
        visit_all::<V>(state, query, done).1 == Ok::<bool, Error>(false),
    ensures
        visit_then::<V>(state, query, done + rest, fault) == visit_then::<V>(
            visit_all::<V>(state, query, done).0,
            query,
            rest,
            fault,
        ),
{
    lemma_visit_all_concat::<V>(state, query, done, rest);
}

impl<R: SectorReader> Mount<R> {
    pub open spec fn wf(&self) -> bool {
        &&& self.fsid@.len() == 16
        &&& self.nodesize == MAX_NODE_SIZE
        &&& self.chunks@.len() <= MAX_CHUNKS
        &&& self.csum_type == CSUM_CRC32C
    }

    /// What mounting gives once the superblock's bytes `sb` are read: a fault of the
    /// superblock as `superblock_of` names it, or a well-formed mount with the
    /// superblock's geometry and roots.
    pub open spec fn superblock_outcome(sb: Seq<u8>, r: Result<Self, Error>) -> bool {
        match superblock_of(sb) {
            Err(e) => r matches Err(f) && f == e,
            Ok(v) => r matches Ok(m) ==> {
                &&& m.wf()
                &&& m.fsid@ == v.fsid
                &&& m.sectorsize == v.sectorsize
                &&& m.nodesize == v.nodesize
                &&& m.total_bytes == v.total_bytes
                &&& m.generation == v.generation
                &&& m.root == v.root
                &&& m.chunk_root == v.chunk_root
                &&& m.chunks@.len() >= 1
            },
        }
    }

    /// Mounts the filesystem on `reader`: reads the superblock's sectors (those of bytes
    /// `SUPERBLOCK_OFFSET` to `SUPERBLOCK_OFFSET + SUPERBLOCK_SIZE`), where a refused read
    /// gives `Io`, and hands what came back to `open_with_superblock`.
    pub fn open(reader: R) -> (r: Result<Self, Error>)
        ensures
            r matches Ok(m) ==> m.wf(),
            r == Err::<Self, Error>(Error::Io) || exists|sb: Seq<u8>| sb.len() == SUPERBLOCK_SIZE
                && #[trigger] Self::superblock_outcome(sb, r),
            reader.described() ==> match sectors_of(
                reader,
                (SUPERBLOCK_OFFSET / (SECTOR_SIZE as u64)) as int,
                (SUPERBLOCK_SIZE / SECTOR_SIZE) as nat,
            ) {
                None => r == Err::<Self, Error>(Error::Io),
                Some(sb) => Self::superblock_outcome(sb, r),
            },
    {
        let sb = match read_sectors(&reader, SUPERBLOCK_OFFSET, SUPERBLOCK_SIZE) {
            Ok(v) => v,
            Err(e) => return Err(e),
        };
        Self::open_with_superblock(reader, sb.as_slice())
    }

    /// Mounts with the superblock already read: any fault of the superblock is returned as
    /// `superblock_of` names it; a mount carries the superblock's geometry and roots.
    pub fn open_with_superblock(reader: R, sb: &[u8]) -> (r: Result<Self, Error>)
        requires
            sb@.len() == SUPERBLOCK_SIZE,
        ensures
            Self::superblock_outcome(sb@, r),
    {
        let parsed = match parse_superblock(sb) {
            Ok(p) => p,
            Err(e) => return Err(e),
        };
        let Superblock { fsid, sectorsize, nodesize, total_bytes, generation, root, chunk_root, csum_type, chunks } =
            parsed;
        let mut mount = Mount {
            reader,
            fsid,
            sectorsize,
            nodesize,
            total_bytes,
            generation,
            root,
            chunk_root,
            csum_type,
            chunks,
        };
        let collected = match mount.collect_chunk_tree() {
            Ok(c) => c,
            Err(e) => return Err(e),
        };
        mount.chunks = collected;
        match mount.find_root_item(BTRFS_FS_TREE_OBJECTID) {
            Ok(_) => Ok(mount),
            Err(e) => Err(e),
        }
    }

    pub fn geometry(&self) -> (r: Geometry)
        ensures
            r == (Geometry {
                sectorsize: self.sectorsize,
                nodesize: self.nodesize,
                total_bytes: self.total_bytes,
                generation: self.generation,
                chunks: self.chunks@.len() as usize,
                checksum: self.csum_type == CSUM_CRC32C,
                read_only: true,
            }),
    {
        Geometry {
            sectorsize: self.sectorsize,
            nodesize: self.nodesize,
            total_bytes: self.total_bytes,
            generation: self.generation,
            chunks: self.chunks.len(),
            checksum: self.csum_type == CSUM_CRC32C,
            read_only: true,
        }
    }

    /// `length` bytes from device offset `offset`; `Io` unless both are sector-aligned
    /// and the range ends within the filesystem.
    fn read_physical(&self, offset: u64, length: usize) -> (r: Result<Vec<u8>, Error>)
        ensures
            r matches Ok(v) ==> v@.len() == length,
            (offset + length > u64::MAX || offset % (SECTOR_SIZE as u64) != 0 || offset + length > self.total_bytes
                || length % SECTOR_SIZE != 0) ==> r == Err::<Vec<u8>, Error>(Error::Io),
            r matches Err(e) ==> e == Error::Io,
            self.reader.described() ==> match physical_bytes(*self, offset, length as int) {
                Ok(bytes) => r matches Ok(v) && v@ == bytes,
                Err(e) => r == Err::<Vec<u8>, Error>(e),
            },
    {
        let end = match offset.checked_add(length as u64) {
            Some(e) => e,
            None => return Err(Error::Io),
        };
        if offset % (SECTOR_SIZE as u64) != 0 || end > self.total_bytes || length % SECTOR_SIZE != 0 {
            return Err(Error::Io);
        }
        read_sectors(&self.reader, offset, length)
    }

    /// The tree block at `logical`, mapped through the chunks, read, and checked.
    fn read_tree_block(&self, logical: u64) -> (r: Result<Vec<u8>, Error>)
        requires
            self.wf(),
        ensures
            r matches Ok(v) ==> v@.len() == MAX_NODE_SIZE && tree_block_check(v@, logical, self.fsid@) is Ok,
            r is Ok ==> self.chunks@.len() > 0,
            r matches Err(e) ==> lookup_error(e),
            self.reader.described() ==> match tree_block(*self, logical) {
                Ok(bytes) => r matches Ok(v) && v@ == bytes,
                Err(e) => r == Err::<Vec<u8>, Error>(e),
            },
    {
        let physical = match map_logical(self.chunks.as_slice(), logical) {
            Ok(p) => p,
            Err(e) => return Err(e),
        };
        let end = match logical.checked_add(self.nodesize as u64) {
            Some(e) => e,
            None => return Err(Error::TreeCorrupt),
        };
        let mapped_end = match map_logical(self.chunks.as_slice(), end - 1) {
            Ok(p) => p,
            Err(e) => return Err(e),
        };
        if physical > u64::MAX - (self.nodesize as u64 - 1) || mapped_end != physical + (self.nodesize as u64 - 1) {
            return Err(Error::UnsupportedFeature);
        }
        let block = match self.read_physical(physical, self.nodesize as usize) {
            Ok(b) => b,
            Err(e) => return Err(e),
        };
        match check_tree_block(block.as_slice(), logical, self.fsid.as_slice()) {
            Ok(()) => Ok(block),
            Err(e) => Err(e),
        }
    }

    /// Walks the tree rooted at `root` depth first, left to right, handing every leaf item
    /// to the visitor until it asks to stop; at most a bounded number of blocks are read
    /// and a bounded number wait.
    #[verifier::rlimit(60)]
    pub fn walk_items<V: ItemVisitor>(&self, root: u64, query: &V::Query, visitor: &mut V) -> (r: Result<(), Error>)
        requires
            self.wf(),
            old(visitor).inv(query),
        ensures
            final(visitor).inv(query),
            r matches Err(e) ==> lookup_error(e),
            r is Ok ==> self.chunks@.len() > 0,
            self.reader.described() ==> (final(visitor).state(), r) == walk_outcome::<R, V>(
                *self,
                root,
                old(visitor).state(),
                V::query_view(query),
            ),
    {
        let ghost q = V::query_view(query);
        let ghost s0 = visitor.state();
        let ghost whole = walk_from(*self, seq![root], 0);
        let ghost mut done: Seq<Item> = Seq::empty();
        let mut pending: Vec<u64> = Vec::new();
        pending.push(root);
        let mut visits: usize = 0;
        proof {
            assert(pending@ =~= seq![root]);
            assert(whole.0 =~= done + walk_from(*self, pending@, 0).0);
        }
        while pending.len() != 0
            invariant
                self.wf(),
                visitor.inv(query),
                visits == 0 ==> pending@.len() > 0,
                visits > 0 ==> self.chunks@.len() > 0,
                visits <= MAX_TREE_VISITS,
                pending@.len() <= MAX_PENDING_NODES,
                q == V::query_view(query),
                s0 == old(visitor).state(),
                whole == walk_from(*self, seq![root], 0),
                self.reader.described() ==> whole.0 == done + walk_from(*self, pending@, visits as int).0,
                self.reader.described() ==> whole.1 == walk_from(*self, pending@, visits as int).1,
                self.reader.described() ==> visit_all::<V>(s0, q, done) == (visitor.state(), Ok::<bool, Error>(false)),
            decreases MAX_TREE_VISITS - visits,
        {
            let ghost before = pending@;
            let ghost visits0 = visits as int;
            let ghost st = visitor.state();
            proof {
                assert(done + Seq::<Item>::empty() =~= done);
                if self.reader.described() {
                    lemma_visit_then_after::<V>(s0, q, done, Seq::<Item>::empty(), walk_from(*self, before, visits0).1);
                }
            }
            let logical = pending.pop().unwrap();
            visits = visits + 1;
            if visits > MAX_TREE_VISITS {
                return Err(Error::TreeCorrupt);
            }
            let block = match self.read_tree_block(logical) {
                Ok(b) => b,
                Err(e) => return Err(e),
            };
            let nritems = le_u32(block.as_slice(), 0x60) as usize;
            let level = block[0x64];
            let capacity: usize = if level == 0 {
                (MAX_NODE_SIZE - TREE_HEADER_SIZE) / LEAF_ITEM_SIZE
            } else {
                (MAX_NODE_SIZE - TREE_HEADER_SIZE) / NODE_PTR_SIZE
            };
            if nritems > capacity {
                return Err(Error::TreeCorrupt);
            }
            if level == 0 {
                let ghost leaf = leaf_items(block@);
                let ghost rest = walk_from(*self, pending@, visits as int);
                let answer = each_item(block.as_slice(), query, visitor);
                proof {
                    if self.reader.described() {
                        lemma_visit_all_concat::<V>(st, q, leaf.0, rest.0);
                        if leaf.1 is Some {
                            lemma_visit_then_after::<V>(s0, q, done, leaf.0, leaf.1);
                        } else {
                            assert(whole.0 =~= done + (leaf.0 + rest.0));
                            lemma_visit_then_after::<V>(s0, q, done, leaf.0 + rest.0, rest.1);
                            lemma_visit_all_concat::<V>(s0, q, done, leaf.0);
                            assert(done + leaf.0 + rest.0 =~= done + (leaf.0 + rest.0));
                        }
                    }
                }
                match answer {
                    Ok(true) => return Ok(()),
                    Ok(false) => {},
                    Err(e) => return Err(e),
                }
                proof {
                    done = done + leaf.0;
                }
            } else {
                if level > 8 || pending.len() + nritems > MAX_PENDING_NODES {
                    return Err(Error::UnsupportedFeature);
                }
                let ghost base = pending@;
                let mut index = nritems;
                proof {
                    assert(pending@ =~= base + Seq::new((nritems - index) as nat, |k: int| child_of(block@, nritems - 1 - k)));
                }
                while index > 0
                    invariant
                        index <= nritems,
                        nritems <= 121,
                        block@.len() == MAX_NODE_SIZE,
                        pending@.len() + index <= MAX_PENDING_NODES,
                        pending@ == base + Seq::new((nritems - index) as nat, |k: int| child_of(block@, nritems - 1 - k)),
                    decreases index,
                {
                    index = index - 1;
                    let child = le_u64(block.as_slice(), TREE_HEADER_SIZE + index * NODE_PTR_SIZE + 17);
                    let ghost was = pending@;
                    pending.push(child);
                    proof {
                        assert(pending@ =~= base + Seq::new((nritems - index) as nat, |k: int| child_of(block@, nritems - 1 - k)));
                    }
                }
                proof {
                    assert(pending@ =~= base + children_rev(block@, nritems as int));
                }
            }
        }
        proof {
            assert(done + Seq::<Item>::empty() =~= done);
            if self.reader.described() {
                lemma_visit_then_after::<V>(s0, q, done, Seq::<Item>::empty(), None);
            }
        }
        Ok(())
    }

    /// The root item of tree `id` in the root tree; `NotFound` when there is none.
    pub fn find_root_item(&self, id: u64) -> (r: Result<RootItem, Error>)
        requires
            self.wf(),
        ensures
            r matches Ok(item) ==> item.id == id,
            r matches Err(e) ==> lookup_error(e),
            r is Ok ==> self.chunks@.len() > 0,
            self.reader.described() ==> r == root_lookup(*self, id),
    {
        let mut finder = RootFinder { result: None };
        match self.walk_items(self.root, &id, &mut finder) {
            Ok(()) => {},
            Err(e) => return Err(e),
        }
        match finder.result {
            Some(item) => Ok(item),
            None => Err(Error::NotFound),
        }
    }

    /// The inode item of `inode_number` in the tree at `root`; `NotFound` when there is none.
    pub fn find_inode(&self, root: u64, inode_number: u64) -> (r: Result<Inode, Error>)
        requires
            self.wf(),
        ensures
            r matches Err(e) ==> lookup_error(e),
            self.reader.described() ==> r == inode_lookup(*self, root, inode_number),
    {
        let mut finder = InodeFinder { result: None };
        match self.walk_items(root, &inode_number, &mut finder) {
            Ok(()) => {},
            Err(e) => return Err(e),
        }
        match finder.result {
            Some(inode) => Ok(inode),
            None => Err(Error::NotFound),
        }
    }

    /// The object that directory `parent` names `target`; `NotDirectory` when `parent`
    /// is no directory, `NotFound` when no entry names it.
    pub fn find_dir_entry(&self, root: u64, parent: u64, target: &[u8]) -> (r: Result<u64, Error>)
        requires
            self.wf(),
        ensures
            r matches Err(e) ==> lookup_error(e),
            self.reader.described() ==> r == entry_lookup(*self, root, parent, target@),
    {
        match self.find_inode(root, parent) {
            Ok(inode) => if inode.mode & 0xf000 != INODE_DIRECTORY {
                return Err(Error::NotDirectory);
            },
            Err(e) => return Err(e),
        }
        let query = (parent, slice_range(target, 0, target.len()));
        proof {
            assert(query.1@ =~= target@);
            assert(DirFinder::query_view(&query) == (parent, target@));
        }
        let mut finder = DirFinder { result: None };
        match self.walk_items(root, &query, &mut finder) {
            Ok(()) => {},
            Err(e) => return Err(e),
        }
        match finder.result {
            Some(child) => Ok(child),
            None => Err(Error::NotFound),
        }
    }

    /// The chunk table completed from the chunk tree.
    fn collect_chunk_tree(&self) -> (r: Result<Vec<Chunk>, Error>)
        requires
            self.wf(),
        ensures
            r matches Ok(v) ==> v@.len() <= MAX_CHUNKS,
    {
        let mut collector = ChunkCollector { chunks: self.chunks.clone() };
        match self.walk_items(self.chunk_root, &(), &mut collector) {
            Ok(()) => Ok(collector.chunks),
            Err(e) => Err(e),
        }
    }

    /// The filesystem tree's root and the inode that `path` names in it.
    pub fn resolve(&self, path: &[u8]) -> (r: Result<(u64, u64), Error>)
        requires
            self.wf(),
        ensures
            path_components(path@) is None ==> r == Err::<(u64, u64), Error>(Error::InvalidPath),
            r matches Err(e) ==> lookup_error(e) || (e == Error::InvalidPath && path_components(path@) is None),
            self.reader.described() ==> r == path_lookup(*self, path@),
    {
        let parts = match components(path) {
            Ok(p) => p,
            Err(e) => return Err(e),
        };
        let root = match self.find_root_item(BTRFS_FS_TREE_OBJECTID) {
            Ok(r) => r,
            Err(e) => return Err(e),
        };
        let ghost names = views(parts@);
        let mut inode = root.root_dirid;
        let mut i: usize = 0;
        proof {
            assert(names.skip(0) =~= names);
        }
        while i < parts.len()
            invariant
                self.wf(),
                i <= parts@.len(),
                path_components(path@) == Some(names),
                names == views(parts@),
                self.reader.described() ==> root_lookup(*self, BTRFS_FS_TREE_OBJECTID) == Ok::<RootItem, Error>(root),
                self.reader.described() ==> parts_lookup(*self, root.bytenr, root.root_dirid, names) == parts_lookup(
                    *self,
                    root.bytenr,
                    inode,
                    names.skip(i as int),
                ),
            decreases parts@.len() - i,
        {
            proof {
                assert(names.skip(i as int)[0] == parts@[i as int]@);
                assert(names.skip(i as int).drop_first() =~= names.skip(i + 1));
            }
            inode = match self.find_dir_entry(root.bytenr, inode, parts[i].as_slice()) {
                Ok(child) => child,
                Err(e) => return Err(e),
            };
            i = i + 1;
        }
        proof {
            assert(names.skip(i as int) =~= Seq::<Seq<u8>>::empty());
        }
        Ok((root.bytenr, inode))
    }

    /// Fills `output` from the front with the filesystem's subvolumes, as many as fit;
    /// the rest of `output` is left as it was.
    pub fn subvolumes(&self, output: &mut Vec<Subvolume>) -> (r: Result<usize, Error>)
        requires
            self.wf(),
        ensures
            final(output)@.len() == old(output)@.len(),
            r matches Ok(count) ==> count <= old(output)@.len() && (forall|i: int|
                0 <= i < count ==> final(output)@[i].id >= BTRFS_FIRST_FREE_OBJECTID) && (forall|i: int|
                count <= i < old(output)@.len() ==> final(output)@[i] == old(output)@[i]),
            r is Err ==> final(output)@ == old(output)@,
            self.reader.described() ==> match subvolume_list(*self, old(output)@.len() as usize) {
                Err(e) => r == Err::<usize, Error>(e),
                Ok(found) => r == Ok::<usize, Error>(found.len() as usize) && final(output)@ == found + old(output)@.skip(found.len() as int),
            },
    {
        let limit = output.len();
        let mut collector = SubvolumeCollector { found: Vec::new() };
        match self.walk_items(self.root, &limit, &mut collector) {
            Ok(()) => {},
            Err(e) => return Err(e),
        }
        let count = collector.found.len();
        let mut i: usize = 0;
        while i < count
            invariant
                collector.inv(&limit),
                count == collector.found@.len(),
                limit == old(output)@.len(),
                output@.len() == old(output)@.len(),
                i <= count,
                forall|j: int| 0 <= j < i ==> output@[j] == collector.found@[j],
                forall|j: int| i <= j < output@.len() ==> output@[j] == old(output)@[j],
            decreases count - i,
        {
            output.set(i, collector.found[i]);
            i = i + 1;
        }
        proof {
            assert(output@ =~= collector.found@ + old(output)@.skip(count as int));
        }
        Ok(count)
    }

    /// The mode and size of what `path` names.
    pub fn stat(&self, path: &str) -> (r: Result<FileInfo, Error>)
        requires
            self.wf(),
        ensures
            path_components(path.spec_bytes()) is None ==> r == Err::<FileInfo, Error>(Error::InvalidPath),
            r == Err::<FileInfo, Error>(Error::InvalidPath) ==> path_components(path.spec_bytes()) is None,
            r matches Ok(info) ==> exists|inode: Inode| info == file_info_of(inode),
            self.reader.described() ==> r == stat_of(*self, path.spec_bytes()),
    {
        let (root, inode_number) = match self.resolve(path.as_bytes()) {
            Ok(found) => found,
            Err(e) => return Err(e),
        };
        match self.find_inode(root, inode_number) {
            Ok(inode) => {
                let info = FileInfo { mode: inode.mode, size: inode.size, directory: inode.mode & 0xf000 == INODE_DIRECTORY };
                assert(info == file_info_of(inode));
                Ok(info)
            },
            Err(e) => Err(e),
        }
    }

    /// Copies the file `path` names into the front of `output` and returns its size:
    /// the path is resolved, its inode found, `file_check` decides on it, and
    /// `fill_from_extent` copies the file's inline extent; the rest of `output` is left as
    /// it was.
    pub fn read_file(&self, path: &str, output: &mut Vec<u8>) -> (r: Result<usize, Error>)
        requires
            self.wf(),
        ensures
            final(output)@.len() == old(output)@.len(),
            path_components(path.spec_bytes()) is None ==> r == Err::<usize, Error>(Error::InvalidPath),
            r == Err::<usize, Error>(Error::InvalidPath) ==> path_components(path.spec_bytes()) is None,
            r matches Ok(n) ==> exists|inode: Inode| file_check_spec(inode, old(output)@.len() as int) == Ok::<
                usize,
                Error,
            >(n),
            r == Err::<usize, Error>(Error::IsDirectory) || r == Err::<usize, Error>(Error::PermissionDenied) || r
                == Err::<usize, Error>(Error::BufferTooSmall) ==> exists|inode: Inode| file_check_spec(
                inode,
                old(output)@.len() as int,
            ) == r,
            r matches Ok(n) ==> n <= old(output)@.len() && final(output)@.subrange(n as int, old(output)@.len() as int)
                == old(output)@.subrange(n as int, old(output)@.len() as int),
            r is Err ==> final(output)@ == old(output)@,
            self.reader.described() ==> match file_contents(*self, path.spec_bytes(), old(output)@.len() as int) {
                Err(e) => r == Err::<usize, Error>(e),
                Ok((n, bytes)) => r == Ok::<usize, Error>(n) && final(output)@ == bytes + old(output)@.skip(n as int),
            },
    {
        let (root, inode_number) = match self.resolve(path.as_bytes()) {
            Ok(found) => found,
            Err(e) => return Err(e),
        };
        let inode = match self.find_inode(root, inode_number) {
            Ok(i) => i,
            Err(e) => return Err(e),
        };
        let size = match file_check(inode, output.len()) {
            Ok(size) => size,
            Err(e) => return Err(e),
        };
        let query = (inode_number, size);
        let mut reader = ExtentReader { contents: None };
        match self.walk_items(root, &query, &mut reader) {
            Ok(()) => {},
            Err(e) => return Err(e),
        }
        proof {
            if size == 0 {
                assert(Seq::<u8>::empty() + old(output)@.skip(0) =~= old(output)@);
            }
        }
        let result = fill_from_extent(reader.contents, size, output);
        proof {
            if result is Ok {
                assert(output@.subrange(size as int, old(output)@.len() as int) =~= old(output)@.subrange(
                    size as int,
                    old(output)@.len() as int,
                ));
            }
        }
        result
    }

    /// The filesystem is mounted read-only: every write is refused.
    pub fn write_file(&self, path: &str, input: &[u8]) -> (r: Result<usize, Error>)
        ensures
            r == Err::<usize, Error>(Error::ReadOnly),
    {
        Err(Error::ReadOnly)
    }
}

// ---------------------------------------------------------------------------
// The ramdisk

/// The sectors of a ramdisk image.
pub struct RamdiskView<'a> {
    pub disk: &'a [u8],
}

impl<'a> SectorReader for RamdiskView<'a> {
    open spec fn described(&self) -> bool {
        true
    }

    open spec fn sector_view(&self, lba: u64) -> Option<Seq<u8>> {
        if lba < self.disk@.len() / (SECTOR_SIZE as nat) {
            Some(self.disk@.subrange(lba * SECTOR_SIZE, lba * SECTOR_SIZE + SECTOR_SIZE))
        } else {
            None
        }
    }

    fn read_sector(&self, lba: u64) -> (r: Option<Vec<u8>>)
        ensures
            lba >= self.disk@.len() / (SECTOR_SIZE as nat) ==> r is None,
            lba < self.disk@.len() / (SECTOR_SIZE as nat) ==> (r matches Some(v) && v@ == self.disk@.subrange(
                lba * SECTOR_SIZE,
                lba * SECTOR_SIZE + SECTOR_SIZE,
            )),
    {
        if lba >= (self.disk.len() / SECTOR_SIZE) as u64 {
            return None;
        }
        let start = lba as usize * SECTOR_SIZE;
        proof {
            assert(start + SECTOR_SIZE <= self.disk@.len()) by (nonlinear_arith)
                requires
                    lba < self.disk@.len() / 512,
                    start == lba * 512,
            ;
        }
        Some(slice_range(self.disk, start, start + SECTOR_SIZE))
    }
}

/// Mounts the btrfs filesystem on the block layer's ramdisk, whose data sectors must at
/// least hold the superblock.
pub fn probe_ramdisk<'a>(layer: &'a BlockLayer) -> (r: Result<Mount<RamdiskView<'a>>, Error>)
    ensures
        layer.data_sectors * 512 < SUPERBLOCK_OFFSET + SUPERBLOCK_SIZE ==> (r matches Err(e) && e
            == Error::InvalidSuperblock),
        r matches Ok(m) ==> m.wf(),
        layer.data_sectors * 512 >= SUPERBLOCK_OFFSET + SUPERBLOCK_SIZE ==> if layer.ramdisk@.len()
            >= SUPERBLOCK_OFFSET + SUPERBLOCK_SIZE {
            Mount::<RamdiskView<'a>>::superblock_outcome(
                layer.ramdisk@.subrange(SUPERBLOCK_OFFSET as int, SUPERBLOCK_OFFSET + SUPERBLOCK_SIZE),
                r,
            )
        } else {
            r matches Err(e) && e == Error::Io
        },
{
    let geometry = layer.geometry();
    if geometry.sectors < (SUPERBLOCK_OFFSET + SUPERBLOCK_SIZE as u64) / (SECTOR_SIZE as u64) {
        return Err(Error::InvalidSuperblock);
    }
    let image = layer.ramdisk.as_slice();
    let end: usize = if geometry.sectors < (image.len() / SECTOR_SIZE) as u64 {
        geometry.sectors as usize * SECTOR_SIZE
    } else {
        image.len()
    };
    let disk = slice_prefix(image, end);
    proof {
        assert(end >= 0x11000 <==> image@.len() >= 0x11000) by (nonlinear_arith)
            requires
                geometry.sectors >= 136,
                geometry.sectors < image@.len() / 512 ==> end == geometry.sectors * 512,
                !(geometry.sectors < image@.len() / 512) ==> end == image@.len(),
                end <= image@.len(),
        ;
        if end >= 0x11000 {
            assert(disk@.subrange(0x10000, 0x11000) =~= image@.subrange(0x10000, 0x11000));
        }
    }
    open_ramdisk(disk)
}

/// Mounts the filesystem held by the bytes of `disk`.
fn open_ramdisk<'a>(disk: &'a [u8]) -> (r: Result<Mount<RamdiskView<'a>>, Error>)
    ensures
        r matches Ok(m) ==> m.wf(),
        disk@.len() >= SUPERBLOCK_OFFSET + SUPERBLOCK_SIZE ==> Mount::<RamdiskView<'a>>::superblock_outcome(
            disk@.subrange(SUPERBLOCK_OFFSET as int, SUPERBLOCK_OFFSET + SUPERBLOCK_SIZE),
            r,
        ),
        disk@.len() < SUPERBLOCK_OFFSET + SUPERBLOCK_SIZE ==> r == Err::<Mount<RamdiskView<'a>>, Error>(Error::Io),
{
    let view = RamdiskView { disk };
    proof {
        lemma_ramdisk_sectors(view, 128, 8);
    }
    Mount::open(view)
}

/// `count` sectors of a ramdisk from sector `first`: its bytes there when it holds all of
/// them, else nothing.
proof fn lemma_ramdisk_sectors<'a>(view: RamdiskView<'a>, first: int, count: int)
    requires
        0 <= first,
        0 <= count,
        first + count <= 0x1_0000_0000,
    ensures
        (first + count) * 512 <= view.disk@.len() ==> sectors_of(view, first, count as nat) == Some(
            view.disk@.subrange(first * 512, (first + count) * 512),
        ),
        count > 0 && (first + count) * 512 > view.disk@.len() ==> sectors_of(view, first, count as nat) is None,
    decreases count,
{
    if count > 0 {
        let c1 = count - 1;
        lemma_ramdisk_sectors(view, first, c1);
        let lba = first + c1;
        let len = view.disk@.len() as int;
        assert((lba as u64) as int == lba);
        assert(lba < len / 512 <==> (lba + 1) * 512 <= len) by (nonlinear_arith)
            requires
                lba >= 0,
                len >= 0,
        ;
        assert((first + c1) * 512 + 512 == (first + count) * 512) by (nonlinear_arith)
            requires
                count == c1 + 1,
        ;
        assert(first * 512 <= (first + c1) * 512) by (nonlinear_arith)
            requires
                c1 >= 0,
        ;
        assert(((first + count - 1) as u64) as int == lba);
        assert(sectors_of(view, first, count as nat) == match sectors_of(view, first, c1 as nat) {
            None => None,
            Some(prefix) => match view.sector_view(lba as u64) {
                Some(sector) => if sector.len() == SECTOR_SIZE {
                    Some(prefix + sector)
                } else {
                    None
                },
                None => None,
            },
        });
        if (first + count) * 512 <= len {
            assert(view.sector_view(lba as u64) == Some(view.disk@.subrange(lba * 512, lba * 512 + 512)));
            assert(view.disk@.subrange(first * 512, (first + c1) * 512) + view.disk@.subrange(
                lba * 512,
                lba * 512 + 512,
            ) =~= view.disk@.subrange(first * 512, (first + count) * 512));
        } else {
            assert(view.sector_view(lba as u64) is None);
        }
    }
}

fn slice_prefix<'a>(bytes: &'a [u8], end: usize) -> (r: &'a [u8])
    requires
        end <= bytes@.len(),
    ensures
        r@ == bytes@.subrange(0, end as int),
{
    vstd::slice::slice_subrange(bytes, 0, end)
}

// ---------------------------------------------------------------------------
// A fixture image

/// Which fault, if any, the fixture image carries in its superblock sector.
#[derive(Clone, Copy, Debug, PartialEq, Eq, Structural)]
pub enum FixtureFault {
    Intact,
    CorruptSuperblock,
    UnsupportedChecksum,
}

/// A small btrfs image built on the fly: a superblock, a chunk tree leaf, a two-level
/// root tree with the filesystem tree and one snapshot, and a filesystem tree holding
/// `/hello.txt`.
pub struct FixtureDisk {
    pub fault: FixtureFault,
}

fn fixture_fsid(output: &mut Vec<u8>, offset: usize)
    requires
        old(output)@.len() <= SUPERBLOCK_SIZE,
        offset + 16 <= old(output)@.len(),
    ensures
        final(output)@.len() == old(output)@.len(),
        forall|k: int| 0 <= k < 16 ==> #[trigger] final(output)@[offset + k] == k + 1,
        forall|i: int|
            0 <= i < old(output)@.len() && !(offset <= i < offset + 16) ==> #[trigger] final(output)@[i]
                == old(output)@[i],
{
    let mut k: usize = 0;
    while k < 16
        invariant
            k <= 16,
            offset + 16 <= output@.len(),
            output@.len() == old(output)@.len(),
            output@.len() <= SUPERBLOCK_SIZE,
            forall|j: int| 0 <= j < k ==> #[trigger] output@[offset + j] == j + 1,
            forall|i: int|
                0 <= i < old(output)@.len() && !(offset <= i < offset + k) ==> #[trigger] output@[i]
                    == old(output)@[i],
        decreases 16 - k,
    {
        output.set(offset + k, (k + 1) as u8);
        k = k + 1;
    }
}

fn write_key(output: &mut Vec<u8>, offset: usize, objectid: u64, kind: u8, key_offset: u64)
    requires
        old(output)@.len() <= SUPERBLOCK_SIZE,
        offset + 17 <= old(output)@.len(),
    ensures
        final(output)@.len() == old(output)@.len(),
        spec_le_u64(final(output)@, offset as int) == objectid,
        final(output)@[offset + 8] == kind,
        spec_le_u64(final(output)@, offset + 9) == key_offset,
        forall|i: int|
            0 <= i < old(output)@.len() && !(offset <= i < offset + 17) ==> #[trigger] final(output)@[i]
                == old(output)@[i],
{
    put_u64(output, offset, objectid);
    output.set(offset + 8, kind);
    put_u64(output, offset + 9, key_offset);
}

fn write_chunk(output: &mut Vec<u8>, offset: usize, length: u64, kind: u64, physical: u64)
    requires
        old(output)@.len() <= SUPERBLOCK_SIZE,
        offset + 96 <= old(output)@.len(),
    ensures
        final(output)@.len() == old(output)@.len(),
        spec_le_u64(final(output)@, offset as int) == length,
        spec_le_u64(final(output)@, offset + 8) == BTRFS_CHUNK_TREE_OBJECTID,
        spec_le_u64(final(output)@, offset + 16) == 4096,
        spec_le_u64(final(output)@, offset + 24) == kind,
        spec_le_u32(final(output)@, offset + 32) == 4096,
        spec_le_u32(final(output)@, offset + 36) == 4096,
        spec_le_u32(final(output)@, offset + 40) == 4096,
        spec_le_u16(final(output)@, offset + 44) == 1,
        spec_le_u16(final(output)@, offset + 46) == 0,
        spec_le_u64(final(output)@, offset + 48) == 1,
        spec_le_u64(final(output)@, offset + 56) == physical,
        forall|k: int| 0 <= k < 16 ==> #[trigger] final(output)@[offset + 64 + k] == k + 1,
        forall|i: int|
            0 <= i < old(output)@.len() && !(offset <= i < offset + 80) ==> #[trigger] final(output)@[i]
                == old(output)@[i],
{
    put_u64(output, offset, length);
    put_u64(output, offset + 8, BTRFS_CHUNK_TREE_OBJECTID);
    put_u64(output, offset + 16, 4096);
    put_u64(output, offset + 24, kind);
    put_u32(output, offset + 32, 4096);
    put_u32(output, offset + 36, 4096);
    put_u32(output, offset + 40, 4096);
    put_u16(output, offset + 44, 1);
    put_u16(output, offset + 46, 0);
    put_u64(output, offset + 48, 1);
    put_u64(output, offset + 56, physical);
    fixture_fsid(output, offset + 64);
}

fn write_root_item(output: &mut Vec<u8>, offset: usize, length: usize, bytenr: u64, read_only: bool, snapshot: bool)
    requires
        old(output)@.len() <= SUPERBLOCK_SIZE,
        239 <= length,
        offset + length <= old(output)@.len(),
        snapshot ==> length >= 279,
    ensures
        final(output)@.len() == old(output)@.len(),
        spec_le_u64(final(output)@, offset + 160) == 1,
        spec_le_u64(final(output)@, offset + 168) == 256,
        spec_le_u64(final(output)@, offset + 176) == bytenr,
        spec_le_u64(final(output)@, offset + 208) == (if read_only { ROOT_SUBVOL_RDONLY } else { 0 }),
        spec_le_u32(final(output)@, offset + 216) == 1,
        snapshot ==> forall|k: int| 263 <= k < 279 ==> #[trigger] final(output)@[offset + k] == 1,
        forall|i: int|
            0 <= i < old(output)@.len() && !(offset + 160 <= i < offset + 220) && !(snapshot && offset + 263 <= i
                < offset + 279) ==> #[trigger] final(output)@[i] == old(output)@[i],
{
    put_u64(output, offset + 160, 1);
    put_u64(output, offset + 168, 256);
    put_u64(output, offset + 176, bytenr);
    put_u64(output, offset + 208, if read_only { ROOT_SUBVOL_RDONLY } else { 0 });
    put_u32(output, offset + 216, 1);
    if snapshot {
        let mut k: usize = 263;
        while k < 279
            invariant
                263 <= k <= 279,
                offset + 279 <= output@.len(),
                output@.len() == old(output)@.len(),
                output@.len() <= SUPERBLOCK_SIZE,
                snapshot,
                spec_le_u64(output@, offset + 160) == 1,
                spec_le_u64(output@, offset + 168) == 256,
                spec_le_u64(output@, offset + 176) == bytenr,
                spec_le_u64(output@, offset + 208) == (if read_only { ROOT_SUBVOL_RDONLY } else { 0 }),
                spec_le_u32(output@, offset + 216) == 1,
                forall|j: int| 263 <= j < k ==> #[trigger] output@[offset + j] == 1,
                forall|i: int|
                    0 <= i < old(output)@.len() && !(offset + 160 <= i < offset + 220) && !(offset + 263 <= i
                        < offset + k) ==> #[trigger] output@[i] == old(output)@[i],
            decreases 279 - k,
        {
            output.set(offset + k, 1);
            k = k + 1;
        }
    }
}

fn write_inode(output: &mut Vec<u8>, offset: usize, mode: u32, size: u64)
    requires
        old(output)@.len() <= SUPERBLOCK_SIZE,
        offset + 160 <= old(output)@.len(),
    ensures
        final(output)@.len() == old(output)@.len(),
        spec_le_u64(final(output)@, offset + 16) == size,
        spec_le_u32(final(output)@, offset + 40) == 1,
        spec_le_u32(final(output)@, offset + 52) == mode,
        forall|i: int|
            0 <= i < old(output)@.len() && !(offset + 16 <= i < offset + 56) ==> #[trigger] final(output)@[i]
                == old(output)@[i],
{
    put_u64(output, offset + 16, size);
    put_u32(output, offset + 40, 1);
    put_u32(output, offset + 52, mode);
}

fn write_dir_item(output: &mut Vec<u8>, offset: usize, child: u64, name: &[u8])
    requires
        old(output)@.len() <= SUPERBLOCK_SIZE,
        name@.len() < 0x1_0000,
        offset + 30 + name@.len() <= old(output)@.len(),
    ensures
        final(output)@.len() == old(output)@.len(),
        spec_le_u64(final(output)@, offset as int) == child,
        final(output)@[offset + 8] == INODE_ITEM_KEY,
        spec_le_u64(final(output)@, offset + 17) == 1,
        spec_le_u16(final(output)@, offset + 25) == 0,
        spec_le_u16(final(output)@, offset + 27) == name@.len(),
        final(output)@[offset + 29] == 1,
        final(output)@.subrange(offset + 30, offset + 30 + name@.len()) == name@,
        forall|i: int|
            0 <= i < old(output)@.len() && !(offset <= i < offset + 30 + name@.len()) ==> #[trigger] final(output)@[i]
                == old(output)@[i],
{
    put_u64(output, offset, child);
    output.set(offset + 8, INODE_ITEM_KEY);
    put_u64(output, offset + 17, 1);
    put_u16(output, offset + 25, 0);
    put_u16(output, offset + 27, name.len() as u16);
    output.set(offset + 29, 1);
    let mut k: usize = 0;
    while k < name.len()
        invariant
            k <= name@.len(),
            offset + 30 + name@.len() <= output@.len(),
            output@.len() == old(output)@.len(),
            output@.len() <= SUPERBLOCK_SIZE,
            spec_le_u64(output@, offset as int) == child,
            output@[offset + 8] == INODE_ITEM_KEY,
            spec_le_u64(output@, offset + 17) == 1,
            spec_le_u16(output@, offset + 25) == 0,
            spec_le_u16(output@, offset + 27) == name@.len(),
            output@[offset + 29] == 1,
            forall|j: int| 0 <= j < k ==> #[trigger] output@[offset + 30 + j] == name@[j],
            forall|i: int|
                0 <= i < old(output)@.len() && !(offset <= i < offset + 30 + name@.len()) ==> #[trigger] output@[i]
                    == old(output)@[i],
        decreases name@.len() - k,
    {
        output.set(offset + 30 + k, name[k]);
        k = k + 1;
    }
    assert forall|j: int| 0 <= j < name@.len() implies output@.subrange(offset + 30, offset + 30 + name@.len())[j]
        == name@[j] by {
        assert(output@[offset + 30 + j] == name@[j]);
    }
    assert(output@.subrange(offset + 30, offset + 30 + name@.len()) =~= name@);
}

/// `hello.txt`
fn hello_name() -> (r: Vec<u8>)
    ensures
        r@.len() == 9,
{
    let mut v: Vec<u8> = Vec::new();
    v.push(104);
    v.push(101);
    v.push(108);
    v.push(108);
    v.push(111);
    v.push(46);
    v.push(116);
    v.push(120);
    v.push(116);
    v
}

/// `btrfs fixture` and a newline: the contents of `/hello.txt`.
pub fn fixture_contents() -> (r: Vec<u8>)
    ensures
        r@.len() == 14,
{
    let mut v: Vec<u8> = Vec::new();
    v.push(98);
    v.push(116);
    v.push(114);
    v.push(102);
    v.push(115);
    v.push(32);
    v.push(102);
    v.push(105);
    v.push(120);
    v.push(116);
    v.push(117);
    v.push(114);
    v.push(101);
    v.push(10);
    v
}

/// The fixture superblock, with its checksum.
pub fn fixture_superblock() -> (r: Vec<u8>)
    ensures
        r@.len() == SUPERBLOCK_SIZE,
{
    let mut output = zeroes(SUPERBLOCK_SIZE);
    fixture_fsid(&mut output, 0x20);
    put_u64(&mut output, 0x30, SUPERBLOCK_OFFSET);
    let magic = magic_bytes();
    let mut k: usize = 0;
    while k < 8
        invariant
            k <= 8,
            magic@.len() == 8,
            output@.len() == SUPERBLOCK_SIZE,
        decreases 8 - k,
    {
        output.set(0x40 + k, magic[k]);
        k = k + 1;
    }
    put_u64(&mut output, 0x48, 1);
    put_u64(&mut output, 0x50, 0x2000);
    put_u64(&mut output, 0x58, 0x1000);
    put_u64(&mut output, 0x70, 0x20_000);
    put_u64(&mut output, 0x78, 0x10_000);
    put_u64(&mut output, 0x80, 6);
    put_u64(&mut output, 0x88, 1);
    put_u32(&mut output, 0x90, 4096);
    put_u32(&mut output, 0x94, 4096);
    put_u32(&mut output, 0x98, 4096);
    put_u32(&mut output, 0x9c, 4096);
    put_u32(&mut output, 0xa0, 113);
    put_u16(&mut output, 0xc4, CSUM_CRC32C);
    output.set(0xc6, 1);
    output.set(0xc7, 0);
    write_key(&mut output, SYS_CHUNK_ARRAY_OFFSET, 256, CHUNK_ITEM_KEY, 0);
    write_chunk(&mut output, SYS_CHUNK_ARRAY_OFFSET + 17, 0x10_000, 6, 0);
    let covered = slice_range(output.as_slice(), 32, SUPERBLOCK_SIZE);
    let checksum = crc32c(covered.as_slice());
    put_u32(&mut output, 0, checksum);
    output
}

fn init_tree_header(output: &mut Vec<u8>, logical: u64, nritems: u32, level: u8, owner: u64)
    requires
        old(output)@.len() == MAX_NODE_SIZE,
    ensures
        final(output)@.len() == MAX_NODE_SIZE,
        forall|k: int| 0 <= k < 16 ==> #[trigger] final(output)@[0x20 + k] == k + 1,
        spec_le_u64(final(output)@, 0x30) == logical,
        spec_le_u64(final(output)@, 0x50) == 1,
        spec_le_u64(final(output)@, 0x58) == owner,
        spec_le_u32(final(output)@, 0x60) == nritems,
        final(output)@[0x64] == level,
        forall|i: int|
            0 <= i < MAX_NODE_SIZE && !(0x20 <= i < 0x38) && !(0x50 <= i < 0x65) ==> #[trigger] final(output)@[i]
                == old(output)@[i],
{
    fixture_fsid(output, 0x20);
    put_u64(output, 0x30, logical);
    put_u64(output, 0x50, 1);
    put_u64(output, 0x58, owner);
    put_u32(output, 0x60, nritems);
    output.set(0x64, level);
}

/// Leaf item `index` of the tree block `b` has the given key and data placement.
pub open spec fn leaf_item_is(b: Seq<u8>, index: int, objectid: u64, kind: u8, key_offset: u64, data: int, size: int) -> bool {
    let at = TREE_HEADER_SIZE + index * LEAF_ITEM_SIZE;
    &&& spec_le_u64(b, at) == objectid
    &&& b[at + 8] == kind
    &&& spec_le_u64(b, at + 9) == key_offset
    &&& spec_le_u32(b, at + 17) == data
    &&& spec_le_u32(b, at + 21) == size
}

/// The chunk item at `offset` maps `length` bytes of kind `kind` to one stripe at `physical`.
pub open spec fn chunk_written(b: Seq<u8>, offset: int, length: u64, kind: u64, physical: u64) -> bool {
    &&& spec_le_u64(b, offset) == length
    &&& spec_le_u64(b, offset + 8) == BTRFS_CHUNK_TREE_OBJECTID
    &&& spec_le_u64(b, offset + 16) == 4096
    &&& spec_le_u64(b, offset + 24) == kind
    &&& spec_le_u32(b, offset + 32) == 4096
    &&& spec_le_u32(b, offset + 36) == 4096
    &&& spec_le_u32(b, offset + 40) == 4096
    &&& spec_le_u16(b, offset + 44) == 1
    &&& spec_le_u16(b, offset + 46) == 0
    &&& spec_le_u64(b, offset + 48) == 1
    &&& spec_le_u64(b, offset + 56) == physical
}

/// The root item at `offset` points at the tree block `bytenr`.
pub open spec fn root_item_written(b: Seq<u8>, offset: int, bytenr: u64, read_only: bool) -> bool {
    &&& spec_le_u64(b, offset + 160) == 1
    &&& spec_le_u64(b, offset + 168) == 256
    &&& spec_le_u64(b, offset + 176) == bytenr
    &&& spec_le_u64(b, offset + 208) == (if read_only { ROOT_SUBVOL_RDONLY } else { 0 })
    &&& spec_le_u32(b, offset + 216) == 1
}

/// The inode item at `offset` has the given mode and size.
pub open spec fn inode_written(b: Seq<u8>, offset: int, mode: u32, size: u64) -> bool {
    &&& spec_le_u64(b, offset + 16) == size
    &&& spec_le_u32(b, offset + 40) == 1
    &&& spec_le_u32(b, offset + 52) == mode
}

fn fixture_chunk_leaf(output: &mut Vec<u8>)
    requires
        old(output)@.len() == MAX_NODE_SIZE,
    ensures
        final(output)@.len() == MAX_NODE_SIZE,
        leaf_item_is(final(output)@, 0, 256, CHUNK_ITEM_KEY, 0, 4000, 96),
        chunk_written(final(output)@, 4000, 0x10_000, 6, 0),
        forall|k: int| 0 <= k < 16 ==> #[trigger] final(output)@[4000 + 64 + k] == k + 1,
        forall|i: int|
            0 <= i < MAX_NODE_SIZE && !(TREE_HEADER_SIZE <= i < TREE_HEADER_SIZE + LEAF_ITEM_SIZE) && !(4000 <= i
                < 4080) ==> #[trigger] final(output)@[i] == old(output)@[i],
{
    let data_offset: usize = 4000;
    write_key(output, TREE_HEADER_SIZE, 256, CHUNK_ITEM_KEY, 0);
    put_u32(output, TREE_HEADER_SIZE + 17, data_offset as u32);
    put_u32(output, TREE_HEADER_SIZE + 21, 96);
    write_chunk(output, data_offset, 0x10_000, 6, 0);
}

fn fixture_root_leaf(output: &mut Vec<u8>)
    requires
        old(output)@.len() == MAX_NODE_SIZE,
    ensures
        final(output)@.len() == MAX_NODE_SIZE,
        leaf_item_is(final(output)@, 0, BTRFS_FS_TREE_OBJECTID, ROOT_ITEM_KEY, 0, 3857, 239),
        root_item_written(final(output)@, 3857, 0x4000, false),
        leaf_item_is(final(output)@, 1, 256, ROOT_ITEM_KEY, 0, 3578, 279),
        root_item_written(final(output)@, 3578, 0x5000, true),
        forall|k: int| 263 <= k < 279 ==> #[trigger] final(output)@[3578 + k] == 1,
{
    write_root_item(output, 3857, 239, 0x4000, false, false);
    write_key(output, TREE_HEADER_SIZE, BTRFS_FS_TREE_OBJECTID, ROOT_ITEM_KEY, 0);
    put_u32(output, TREE_HEADER_SIZE + 17, 3857);
    put_u32(output, TREE_HEADER_SIZE + 21, 239);
    write_root_item(output, 3578, 279, 0x5000, true, true);
    write_key(output, TREE_HEADER_SIZE + LEAF_ITEM_SIZE, 256, ROOT_ITEM_KEY, 0);
    put_u32(output, TREE_HEADER_SIZE + LEAF_ITEM_SIZE + 17, 3578);
    put_u32(output, TREE_HEADER_SIZE + LEAF_ITEM_SIZE + 21, 279);
}

#[verifier::rlimit(80)]
fn fixture_fs_leaf(output: &mut Vec<u8>)
    requires
        old(output)@.len() == MAX_NODE_SIZE,
    ensures
        final(output)@.len() == MAX_NODE_SIZE,
        leaf_item_is(final(output)@, 0, 256, INODE_ITEM_KEY, 0, 3936, 160),
        inode_written(final(output)@, 3936, INODE_DIRECTORY | 0o755, 1024),
        leaf_item_is(final(output)@, 1, 256, DIR_ITEM_KEY, 0, 3897, 39),
        spec_le_u64(final(output)@, 3897) == 257,
        spec_le_u16(final(output)@, 3924) == 9,
        leaf_item_is(final(output)@, 2, 257, INODE_ITEM_KEY, 0, 3737, 160),
        inode_written(final(output)@, 3737, INODE_REGULAR | 0o644, 14),
        leaf_item_is(final(output)@, 3, 257, EXTENT_DATA_KEY, 0, 3671, 67),
        spec_le_u64(final(output)@, 3679) == 14,
        final(output)@[3690] == 0,
{
    let inode_offset: usize = 3936;
    write_key(output, TREE_HEADER_SIZE, 256, INODE_ITEM_KEY, 0);
    put_u32(output, TREE_HEADER_SIZE + 17, inode_offset as u32);
    put_u32(output, TREE_HEADER_SIZE + 21, 160);
    write_inode(output, inode_offset, INODE_DIRECTORY | 0o755, 1024);

    let dir_offset: usize = 3897;
    write_key(output, TREE_HEADER_SIZE + LEAF_ITEM_SIZE, 256, DIR_ITEM_KEY, 0);
    put_u32(output, TREE_HEADER_SIZE + LEAF_ITEM_SIZE + 17, dir_offset as u32);
    put_u32(output, TREE_HEADER_SIZE + LEAF_ITEM_SIZE + 21, 39);
    let name = hello_name();
    write_dir_item(output, dir_offset, 257, name.as_slice());

    let file_inode_offset: usize = 3737;
    write_key(output, TREE_HEADER_SIZE + LEAF_ITEM_SIZE * 2, 257, INODE_ITEM_KEY, 0);
    put_u32(output, TREE_HEADER_SIZE + LEAF_ITEM_SIZE * 2 + 17, file_inode_offset as u32);
    put_u32(output, TREE_HEADER_SIZE + LEAF_ITEM_SIZE * 2 + 21, 160);
    write_inode(output, file_inode_offset, INODE_REGULAR | 0o644, 14);

    let extent_offset: usize = 3671;
    write_key(output, TREE_HEADER_SIZE + LEAF_ITEM_SIZE * 3, 257, EXTENT_DATA_KEY, 0);
    put_u32(output, TREE_HEADER_SIZE + LEAF_ITEM_SIZE * 3 + 17, extent_offset as u32);
    put_u32(output, TREE_HEADER_SIZE + LEAF_ITEM_SIZE * 3 + 21, 67);
    put_u64(output, extent_offset + 8, 14);
    output.set(extent_offset + 19, 0);
    let contents = fixture_contents();
    let mut k: usize = 0;
    while k < 14
        invariant
            k <= 14,
            contents@.len() == 14,
            output@.len() == MAX_NODE_SIZE,
            extent_offset == 3671,
            leaf_item_is(output@, 0, 256, INODE_ITEM_KEY, 0, 3936, 160),
            inode_written(output@, 3936, INODE_DIRECTORY | 0o755, 1024),
            leaf_item_is(output@, 1, 256, DIR_ITEM_KEY, 0, 3897, 39),
            spec_le_u64(output@, 3897) == 257,
            spec_le_u16(output@, 3924) == 9,
            leaf_item_is(output@, 2, 257, INODE_ITEM_KEY, 0, 3737, 160),
            inode_written(output@, 3737, INODE_REGULAR | 0o644, 14),
            leaf_item_is(output@, 3, 257, EXTENT_DATA_KEY, 0, 3671, 67),
            spec_le_u64(output@, 3679) == 14,
            output@[3690] == 0,
        decreases 14 - k,
    {
        output.set(extent_offset + 53 + k, contents[k]);
        k = k + 1;
    }
}

/// The fixture's tree block at `logical`, with its checksum; blocks the fixture does not
/// hold are zero.
pub fn fixture_tree(logical: u64) -> (r: Vec<u8>)
    ensures
        r@.len() == MAX_NODE_SIZE,
{
    let mut output = zeroes(MAX_NODE_SIZE);
    if logical == 0x1000 {
        init_tree_header(&mut output, logical, 1, 0, BTRFS_CHUNK_TREE_OBJECTID);
        fixture_chunk_leaf(&mut output);
    } else if logical == 0x2000 {
        init_tree_header(&mut output, logical, 1, 1, BTRFS_ROOT_TREE_OBJECTID);
        write_key(&mut output, TREE_HEADER_SIZE, 5, ROOT_ITEM_KEY, 0);
        put_u64(&mut output, TREE_HEADER_SIZE + 17, 0x3000);
        put_u64(&mut output, TREE_HEADER_SIZE + 25, 1);
    } else if logical == 0x3000 {
        init_tree_header(&mut output, logical, 2, 0, BTRFS_ROOT_TREE_OBJECTID);
        fixture_root_leaf(&mut output);
    } else if logical == 0x4000 {
        init_tree_header(&mut output, logical, 4, 0, BTRFS_FS_TREE_OBJECTID);
        fixture_fs_leaf(&mut output);
    } else {
        return output;
    }
    let covered = slice_range(output.as_slice(), 32, MAX_NODE_SIZE);
    let checksum = crc32c(covered.as_slice());
    put_u32(&mut output, 0, checksum);
    output
}

impl SectorReader for FixtureDisk {
    open spec fn described(&self) -> bool {
        false
    }

    open spec fn sector_view(&self, lba: u64) -> Option<Seq<u8>> {
        None
    }

    fn read_sector(&self, lba: u64) -> (r: Option<Vec<u8>>)
        ensures
            r matches Some(v) && v@.len() == SECTOR_SIZE,
            !(SUPERBLOCK_OFFSET <= lba * SECTOR_SIZE < SUPERBLOCK_OFFSET + SUPERBLOCK_SIZE) && !(0x1000 <= lba
                * SECTOR_SIZE < 0x5000) ==> (r matches Some(v) && v@ == Seq::new(SECTOR_SIZE as nat, |i: int| 0u8)),
    {
        if lba > u64::MAX / (SECTOR_SIZE as u64) {
            return Some(zeroes(SECTOR_SIZE));
        }
        proof {
            assert(lba * 512 <= u64::MAX) by (nonlinear_arith)
                requires
                    lba <= u64::MAX / 512,
            ;
        }
        let offset = lba * SECTOR_SIZE as u64;
        if SUPERBLOCK_OFFSET <= offset && offset < SUPERBLOCK_OFFSET + SUPERBLOCK_SIZE as u64 {
            let block = fixture_superblock();
            let start = (offset - SUPERBLOCK_OFFSET) as usize;
            proof {
                assert(start + SECTOR_SIZE <= SUPERBLOCK_SIZE) by (nonlinear_arith)
                    requires
                        offset == lba * 512,
                        0x10000 <= offset < 0x11000,
                        start == offset - 0x10000,
                ;
            }
            let mut sector = slice_range(block.as_slice(), start, start + SECTOR_SIZE);
            if lba == SUPERBLOCK_OFFSET / SECTOR_SIZE as u64 {
                match self.fault {
                    FixtureFault::Intact => {},
                    FixtureFault::CorruptSuperblock => {
                        let first = sector[0] ^ 1;
                        sector.set(0, first);
                    },
                    FixtureFault::UnsupportedChecksum => {
                        sector.set(0xc4, 1);
                    },
                }
            }
            return Some(sector);
        }
        let mut logical: u64 = 0x1000;
        while logical <= 0x4000
            invariant
                0x1000 <= logical <= 0x5000,
                logical % 0x1000 == 0,
                offset == lba * 512,
            decreases 0x5000 - logical,
        {
            if logical <= offset && offset < logical + MAX_NODE_SIZE as u64 {
                let block = fixture_tree(logical);
                let start = (offset - logical) as usize;
                proof {
                    assert(start + SECTOR_SIZE <= MAX_NODE_SIZE) by (nonlinear_arith)
                        requires
                            offset == lba * 512,
                            logical <= offset < logical + 4096,
                            logical % 4096 == 0,
                            start == offset - logical,
                    ;
                }
                return Some(slice_range(block.as_slice(), start, start + SECTOR_SIZE));
            }
            logical = logical + 0x1000;
        }
        Some(zeroes(SECTOR_SIZE))
    }
}

/// Mounts the fixture image and checks what it holds: the geometry, one snapshot
/// subvolume, the size, mode and contents of `/hello.txt`, and the refusals of reading a
/// directory, reading into a short buffer, writing, a corrupt superblock and an unknown
/// checksum type.
pub fn fixture_check() -> (r: bool) {
    let volume = match Mount::open(FixtureDisk { fault: FixtureFault::Intact }) {
        Ok(v) => v,
        Err(_) => return false,
    };
    let geometry = volume.geometry();
    if geometry.nodesize != 4096 || geometry.chunks < 1 || !geometry.checksum || !geometry.read_only {
        return false;
    }
    let empty = Subvolume { id: 0, root_dirid: 0, bytenr: 0, read_only: false, snapshot: false };
    let mut subvolumes: Vec<Subvolume> = vec![empty, empty, empty, empty];
    let count = match volume.subvolumes(&mut subvolumes) {
        Ok(c) => c,
        Err(_) => return false,
    };
    if count != 1 || subvolumes[0].id != BTRFS_FIRST_FREE_OBJECTID || !subvolumes[0].snapshot {
        return false;
    }
    let info = match volume.stat("/hello.txt") {
        Ok(i) => i,
        Err(_) => return false,
    };
    if info.directory || info.mode & 0o777 != 0o644 || info.size != 14 {
        return false;
    }
    let mut output = zeroes(32);
    let length = match volume.read_file("/hello.txt", &mut output) {
        Ok(n) => n,
        Err(_) => return false,
    };
    let expected = fixture_contents();
    if length != 14 {
        return false;
    }
    let mut k: usize = 0;
    while k < 14
        invariant
            k <= 14,
            expected@.len() == 14,
            output@.len() == 32,
        decreases 14 - k,
    {
        if output[k] != expected[k] {
            return false;
        }
        k = k + 1;
    }
    let mut one = zeroes(1);
    match volume.read_file("/", &mut one) {
        Err(Error::IsDirectory) => {},
        _ => return false,
    }
    let mut four = zeroes(4);
    match volume.read_file("/hello.txt", &mut four) {
        Err(Error::BufferTooSmall) => {},
        _ => return false,
    }
    match volume.write_file("/hello.txt", expected.as_slice()) {
        Err(Error::ReadOnly) => {},
        _ => return false,
    }
    match Mount::open(FixtureDisk { fault: FixtureFault::CorruptSuperblock }) {
        Err(Error::ChecksumMismatch) => {},
        _ => return false,
    }
    match Mount::open(FixtureDisk { fault: FixtureFault::UnsupportedChecksum }) {
        Err(Error::UnsupportedChecksum) => true,
        _ => false,
    }
}

/// The module's self-check: the fixture image mounts and reads as described.
pub fn contract_self_check() -> (r: bool) {
    fixture_check()
}

/// Permissions refuse a file exactly when no one may read it: a file that is not a
/// directory is refused with `PermissionDenied` when none of its owner, group and other
/// read bits is set, and when any of them is set and its size fits the output it is
/// read whole.
pub proof fn law_read_permission(inode: Inode, capacity: int)
    requires
        inode.mode & 0xf000 != INODE_DIRECTORY,
    ensures
        (file_check_spec(inode, capacity) == Err::<usize, Error>(Error::PermissionDenied)) <==> (inode.mode & 0o400
            == 0 && inode.mode & 0o040 == 0 && inode.mode & 0o004 == 0),
        (inode.mode & 0o400 != 0 || inode.mode & 0o040 != 0 || inode.mode & 0o004 != 0) && inode.size <= capacity
            ==> file_check_spec(inode, capacity) == Ok::<usize, Error>(inode.size as usize),
{
    let m = inode.mode;
    assert((m & 0o444 == 0) <==> (m & 0o400 == 0 && m & 0o040 == 0 && m & 0o004 == 0)) by (bit_vector);
}

} // verus!
