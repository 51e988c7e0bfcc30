use vstd::prelude::*;

verus! {

/// Little-endian 16-bit value of `s[offset..offset + 2]`.
pub open spec fn spec_le_u16(s: Seq<u8>, offset: int) -> int {
    s[offset] as int + s[offset + 1] as int * 0x100
}

/// Little-endian 32-bit value of `s[offset..offset + 4]`.
pub open spec fn spec_le_u32(s: Seq<u8>, offset: int) -> int {
    spec_le_u16(s, offset) + spec_le_u16(s, offset + 2) * 0x1_0000
}

/// Little-endian 64-bit value of `s[offset..offset + 8]`.
pub open spec fn spec_le_u64(s: Seq<u8>, offset: int) -> int {
    spec_le_u32(s, offset) + spec_le_u32(s, offset + 4) * 0x1_0000_0000
}

/// The value at `offset` depends only on the eight bytes there.
pub proof fn lemma_le_u64_same(a: Seq<u8>, b: Seq<u8>, offset: int)
    requires
        forall|k: int| offset <= k < offset + 8 ==> #[trigger] a[k] == b[k],
    ensures
        spec_le_u64(a, offset) == spec_le_u64(b, offset),
{
    assert(a[offset] == b[offset] && a[offset + 1] == b[offset + 1] && a[offset + 2] == b[offset + 2] && a[offset
        + 3] == b[offset + 3]);
    assert(a[offset + 4] == b[offset + 4] && a[offset + 5] == b[offset + 5] && a[offset + 6] == b[offset + 6]
        && a[offset + 7] == b[offset + 7]);
}

pub fn le_u16(bytes: &[u8], offset: usize) -> (r: u16)
    requires
        offset + 2 <= bytes@.len(),
    ensures
        r as int == spec_le_u16(bytes@, offset as int),
{
    bytes[offset] as u16 + (bytes[offset + 1] as u16) * 0x100
}

pub fn le_u32(bytes: &[u8], offset: usize) -> (r: u32)
    requires
        offset + 4 <= bytes@.len(),
    ensures
        r as int == spec_le_u32(bytes@, offset as int),
{
    let _len = bytes.len();
    let low = le_u16(bytes, offset);
    let high = le_u16(bytes, offset + 2);
    low as u32 + (high as u32) * 0x1_0000
}

pub fn le_u64(bytes: &[u8], offset: usize) -> (r: u64)
    requires
        offset + 8 <= bytes@.len(),
    ensures
        r as int == spec_le_u64(bytes@, offset as int),
{
    let _len = bytes.len();
    let low = le_u32(bytes, offset);
    let high = le_u32(bytes, offset + 4);
    low as u64 + (high as u64) * 0x1_0000_0000
}

proof fn split_u16(v: int)
    requires
        0 <= v < 0x1_0000,
    ensures
        v % 0x100 + (v / 0x100) * 0x100 == v,
        0 <= v / 0x100 < 0x100,
{
}

/// Writes `value` little-endian at `offset`; every other byte stays.
pub fn put_u16(bytes: &mut Vec<u8>, offset: usize, value: u16)
    requires
        offset + 2 <= old(bytes)@.len(),
    ensures
        final(bytes)@.len() == old(bytes)@.len(),
        spec_le_u16(final(bytes)@, offset as int) == value,
        forall|i: int|
            0 <= i < old(bytes)@.len() && !(offset <= i < offset + 2) ==> #[trigger] final(bytes)@[i]
                == old(bytes)@[i],
{
    let _len = bytes.len();
    bytes.set(offset, (value % 0x100) as u8);
    bytes.set(offset + 1, (value / 0x100) as u8);
    proof {
        split_u16(value as int);
    }
}

pub fn put_u32(bytes: &mut Vec<u8>, offset: usize, value: u32)
    requires
        offset + 4 <= old(bytes)@.len(),
    ensures
        final(bytes)@.len() == old(bytes)@.len(),
        spec_le_u32(final(bytes)@, offset as int) == value,
        forall|i: int|
            0 <= i < old(bytes)@.len() && !(offset <= i < offset + 4) ==> #[trigger] final(bytes)@[i]
                == old(bytes)@[i],
{
    let _len = bytes.len();
    put_u16(bytes, offset, (value % 0x1_0000) as u16);
    put_u16(bytes, offset + 2, (value / 0x1_0000) as u16);
    assert(value % 0x1_0000 + (value / 0x1_0000) * 0x1_0000 == value);
}

pub fn put_u64(bytes: &mut Vec<u8>, offset: usize, value: u64)
    requires
        offset + 8 <= old(bytes)@.len(),
    ensures
        final(bytes)@.len() == old(bytes)@.len(),
        spec_le_u64(final(bytes)@, offset as int) == value,
        forall|i: int|
            0 <= i < old(bytes)@.len() && !(offset <= i < offset + 8) ==> #[trigger] final(bytes)@[i]
                == old(bytes)@[i],
{
    let _len = bytes.len();
    put_u32(bytes, offset, (value % 0x1_0000_0000) as u32);
    put_u32(bytes, offset + 4, (value / 0x1_0000_0000) as u32);
    assert(value % 0x1_0000_0000 + (value / 0x1_0000_0000) * 0x1_0000_0000 == value);
}

/// The eight little-endian bytes of `value`.
pub fn u64_to_le_bytes(value: u64) -> (r: Vec<u8>)
    ensures
        r@.len() == 8,
        spec_le_u64(r@, 0) == value,
{
    let mut out: Vec<u8> = vec![0u8, 0, 0, 0, 0, 0, 0, 0];
    put_u64(&mut out, 0, value);
    out
}

/// A vector of `len` zero bytes.
pub fn zeroes(len: usize) -> (r: Vec<u8>)
    ensures
        r@ == Seq::new(len as nat, |i: int| 0u8),
{
    let mut out: Vec<u8> = Vec::new();
    let mut i: usize = 0;
    while i < len
        invariant
            i <= len,
            out@ == Seq::new(i as nat, |k: int| 0u8),
        decreases len - i,
    {
        out.push(0);
        i += 1;
        proof {
            assert(out@ =~= Seq::new(i as nat, |k: int| 0u8));
        }
    }
    out
}

/// Copies `source` into `bytes` at `offset`; every other byte stays.
pub fn copy_into(bytes: &mut Vec<u8>, offset: usize, source: &[u8])
    requires
        offset + source@.len() <= old(bytes)@.len(),
    ensures
        final(bytes)@.len() == old(bytes)@.len(),
        final(bytes)@.subrange(offset as int, offset + source@.len()) == source@,
        forall|i: int|
            0 <= i < old(bytes)@.len() && !(offset <= i < offset + source@.len())
                ==> #[trigger] final(bytes)@[i] == old(bytes)@[i],
{
    let _len = bytes.len();
    let mut i: usize = 0;
    while i < source.len()
        invariant
            offset + source@.len() <= bytes@.len(),
            bytes@.len() <= usize::MAX,
            bytes@.len() == old(bytes)@.len(),
            i <= source@.len(),
            forall|k: int| 0 <= k < i ==> #[trigger] bytes@[offset + k] == source@[k],
            forall|k: int|
                0 <= k < old(bytes)@.len() && !(offset <= k < offset + i) ==> #[trigger] bytes@[k]
                    == old(bytes)@[k],
        decreases source@.len() - i,
    {
        bytes.set(offset + i, source[i]);
        i += 1;
    }
    assert(bytes@.subrange(offset as int, offset + source@.len()) =~= source@) by {
        assert forall|k: int| 0 <= k < source@.len() implies bytes@.subrange(
            offset as int,
            offset + source@.len(),
        )[k] == source@[k] by {
            assert(bytes@[offset + k] == source@[k]);
        }
    }
}

} // verus!
