use vstd::prelude::*;
use crate::bytes::{spec_le_u16, spec_le_u32, spec_le_u64, le_u16, le_u32, le_u64, put_u16, put_u32, put_u64, zeroes, copy_into};

verus! {

pub const MAGIC: u32 = 0x4e52_5843;
pub const VERSION: u16 = 1;
/// Record slots in the persistent sector.
pub const RECORDS: usize = 4;
pub const RECORD_SIZE: usize = 64;
pub const SECTOR_SIZE: usize = 512;
pub const STATE_BOOTING: u8 = 1;
pub const STATE_READY: u8 = 2;
pub const STATE_PANIC: u8 = 3;
pub const STATE_CHECKPOINT: u8 = 4;

/// One entry of the warm-reboot log.
#[derive(Clone, Copy, Debug, PartialEq, Eq, Structural)]
pub struct Record {
    pub state: u8,
    pub kind: u8,
    pub sequence: u64,
    pub code: u64,
    pub arg0: u64,
    pub arg1: u64,
}

/// Rotates `v` left by five bits.
pub open spec fn rotl5(v: u32) -> u32 {
    (v << 5u32) | (v >> 27u32)
}

/// One checksum step over `byte`.
pub open spec fn checksum_step(value: u32, byte: u8) -> u32 {
    (rotl5(value) ^ (byte as u32)).wrapping_mul(0x0100_0193)
}

/// The checksum of `s`: each byte but those of the checksum field itself
/// (offsets 40 to 43) folded in, in order.
pub open spec fn spec_checksum(s: Seq<u8>) -> u32
    decreases s.len(),
{
    if s.len() == 0 {
        0x9e37_79b9
    } else if 40 <= s.len() - 1 < 44 {
        spec_checksum(s.drop_last())
    } else {
        checksum_step(spec_checksum(s.drop_last()), s.last())
    }
}

/// Multiplying by the checksum's odd constant loses nothing: different values stay
/// different.
proof fn lemma_scramble_injective(x: u32, y: u32)
    requires
        x != y,
    ensures
        x.wrapping_mul(0x0100_0193) != y.wrapping_mul(0x0100_0193),
{
    assert(x != y ==> x.wrapping_mul(0x0100_0193) != y.wrapping_mul(0x0100_0193)) by (bit_vector);
}

/// A checksum step tells apart two bytes folded into the same running value.
proof fn lemma_step_bytes_apart(h: u32, b1: u8, b2: u8)
    requires
        b1 != b2,
    ensures
        checksum_step(h, b1) != checksum_step(h, b2),
{
    let r = rotl5(h);
    assert(r ^ (b1 as u32) != r ^ (b2 as u32)) by (bit_vector)
        requires
            b1 != b2,
    ;
    lemma_scramble_injective(r ^ (b1 as u32), r ^ (b2 as u32));
}

/// A checksum step tells apart two running values folded with the same byte.
proof fn lemma_step_values_apart(h1: u32, h2: u32, b: u8)
    requires
        h1 != h2,
    ensures
        checksum_step(h1, b) != checksum_step(h2, b),
{
    assert(rotl5(h1) ^ (b as u32) != rotl5(h2) ^ (b as u32)) by (bit_vector)
        requires
            h1 != h2,
    ;
    lemma_scramble_injective(rotl5(h1) ^ (b as u32), rotl5(h2) ^ (b as u32));
}

/// Sequences of one length that differ in exactly one byte outside the checksum field
/// have different checksums.
proof fn lemma_checksum_catches_byte(a: Seq<u8>, b: Seq<u8>, i: int)
    requires
        a.len() == b.len(),
        0 <= i < a.len(),
        !(40 <= i < 44),
        a[i] != b[i],
        forall|j: int| 0 <= j < a.len() && j != i ==> a[j] == b[j],
    ensures
        spec_checksum(a) != spec_checksum(b),
    decreases a.len(),
{
    let n = a.len() - 1;
    if n == i {
        assert(a.drop_last() =~= b.drop_last());
        lemma_step_bytes_apart(spec_checksum(a.drop_last()), a.last(), b.last());
    } else {
        lemma_checksum_catches_byte(a.drop_last(), b.drop_last(), i);
        if !(40 <= n < 44) {
            assert(a.last() == b.last());
            lemma_step_values_apart(spec_checksum(a.drop_last()), spec_checksum(b.drop_last()), a.last());
        }
    }
}

/// Changing any one of the first `RECORD_SIZE` bytes of something that decodes is
/// caught: it no longer decodes. (The checksum covers every byte but its own field, and
/// a change to the field makes it disagree.)
pub proof fn law_decode_catches_one_byte(s: Seq<u8>, t: Seq<u8>, i: int)
    requires
        spec_decode(s) is Some,
        t.len() == s.len(),
        0 <= i < RECORD_SIZE,
        t[i] != s[i],
        forall|j: int| 0 <= j < s.len() && j != i ==> s[j] == t[j],
    ensures
        spec_decode(t) is None,
{
    let sa = s.take(RECORD_SIZE as int);
    let ta = t.take(RECORD_SIZE as int);
    if 40 <= i < 44 {
        lemma_checksum_ignores_field(sa, ta);
        assert(spec_le_u32(s, 40) != spec_le_u32(t, 40));
    } else {
        lemma_checksum_catches_byte(sa, ta, i);
        assert(spec_le_u32(s, 40) == spec_le_u32(t, 40));
    }
}

/// Sequences that differ only in the checksum field have the same checksum.
proof fn lemma_checksum_ignores_field(a: Seq<u8>, b: Seq<u8>)
    requires
        a.len() == b.len(),
        forall|i: int| 0 <= i < a.len() && !(40 <= i < 44) ==> a[i] == b[i],
    ensures
        spec_checksum(a) == spec_checksum(b),
    decreases a.len(),
{
    if a.len() > 0 {
        lemma_checksum_ignores_field(a.drop_last(), b.drop_last());
    }
}

pub fn checksum(bytes: &[u8]) -> (r: u32)
    ensures
        r == spec_checksum(bytes@),
{
    let mut value: u32 = 0x9e37_79b9;
    let mut index: usize = 0;
    while index < bytes.len()
        invariant
            index <= bytes@.len(),
            value == spec_checksum(bytes@.take(index as int)),
        decreases bytes@.len() - index,
    {
        assert(bytes@.take(index + 1).drop_last() == bytes@.take(index as int));
        if !(40 <= index && index < 44) {
            let rotated = (value << 5u32) | (value >> 27u32);
            value = (rotated ^ (bytes[index] as u32)).wrapping_mul(0x0100_0193);
        }
        index = index + 1;
    }
    assert(bytes@.take(index as int) == bytes@);
    value
}

/// The record the first `RECORD_SIZE` bytes of `s` hold, if they hold one: the magic
/// and version match and the checksum field agrees with the bytes.
pub open spec fn spec_decode(s: Seq<u8>) -> Option<Record> {
    if s.len() < RECORD_SIZE || spec_le_u32(s, 0) != MAGIC || spec_le_u16(s, 4) != VERSION {
        None
    } else if spec_le_u32(s, 40) != spec_checksum(s.take(RECORD_SIZE as int)) {
        None
    } else {
        Some(
            Record {
                state: s[6],
                kind: s[7],
                sequence: spec_le_u64(s, 8) as u64,
                code: spec_le_u64(s, 16) as u64,
                arg0: spec_le_u64(s, 24) as u64,
                arg1: spec_le_u64(s, 32) as u64,
            },
        )
    }
}

pub fn decode(input: &[u8]) -> (r: Option<Record>)
    ensures
        r == spec_decode(input@),
{
    if input.len() < RECORD_SIZE || le_u32(input, 0) != MAGIC || le_u16(input, 4) != VERSION {
        return None;
    }
    let stored = le_u32(input, 40);
    let mut checked: Vec<u8> = Vec::new();
    let mut i: usize = 0;
    while i < RECORD_SIZE
        invariant
            i <= RECORD_SIZE,
            RECORD_SIZE <= input@.len(),
            checked@.len() == i,
            forall|k: int| 0 <= k < i ==> #[trigger] checked@[k] == (if 40 <= k < 44 {
                0u8
            } else {
                input@[k]
            }),
        decreases RECORD_SIZE - i,
    {
        if 40 <= i && i < 44 {
            checked.push(0);
        } else {
            checked.push(input[i]);
        }
        i = i + 1;
    }
    let sum = checksum(checked.as_slice());
    proof {
        lemma_checksum_ignores_field(checked@, input@.take(RECORD_SIZE as int));
    }
    if stored != sum {
        return None;
    }
    Some(
        Record {
            state: input[6],
            kind: input[7],
            sequence: le_u64(input, 8),
            code: le_u64(input, 16),
            arg0: le_u64(input, 24),
            arg1: le_u64(input, 32),
        },
    )
}

/// The `RECORD_SIZE` bytes that store `record`; they decode to it.
pub fn encode(record: Record) -> (r: Vec<u8>)
    ensures
        r@.len() == RECORD_SIZE,
        spec_decode(r@) == Some(record),
{
    let mut output = zeroes(RECORD_SIZE);
    put_u32(&mut output, 0, MAGIC);
    put_u16(&mut output, 4, VERSION);
    output.set(6, record.state);
    output.set(7, record.kind);
    put_u64(&mut output, 8, record.sequence);
    put_u64(&mut output, 16, record.code);
    put_u64(&mut output, 24, record.arg0);
    put_u64(&mut output, 32, record.arg1);
    let ghost before = output@;
    let sum = checksum(output.as_slice());
    put_u32(&mut output, 40, sum);
    proof {
        lemma_checksum_ignores_field(before, output@);
        assert(output@.take(RECORD_SIZE as int) == output@);
    }
    output
}

/// The bytes of slot `slot` of a sector.
pub open spec fn slot_bytes(sector: Seq<u8>, slot: int) -> Seq<u8> {
    sector.subrange(slot * RECORD_SIZE, slot * RECORD_SIZE + RECORD_SIZE)
}

/// Writes `record` into slot `slot` of the sector; the other slots stay.
pub fn append_record(sector: &mut Vec<u8>, slot: usize, record: Record)
    requires
        slot < RECORDS,
        old(sector)@.len() == SECTOR_SIZE,
    ensures
        final(sector)@.len() == SECTOR_SIZE,
        spec_decode(slot_bytes(final(sector)@, slot as int)) == Some(record),
        forall|i: int|
            0 <= i < SECTOR_SIZE && !(slot * RECORD_SIZE <= i < slot * RECORD_SIZE + RECORD_SIZE)
                ==> #[trigger] final(sector)@[i] == old(sector)@[i],
{
    let encoded = encode(record);
    copy_into(sector, slot * RECORD_SIZE, encoded.as_slice());
}

/// The newest record among the first `slots` slots: the one with the highest
/// sequence, the later slot on a tie.
pub open spec fn spec_latest(sector: Seq<u8>, slots: int) -> Option<(usize, Record)>
    decreases slots,
{
    if slots <= 0 {
        None
    } else {
        let previous = spec_latest(sector, slots - 1);
        match spec_decode(slot_bytes(sector, slots - 1)) {
            None => previous,
            Some(record) => match previous {
                Some((slot, best)) => if record.sequence >= best.sequence {
                    Some(((slots - 1) as usize, record))
                } else {
                    Some((slot, best))
                },
                None => Some(((slots - 1) as usize, record)),
            },
        }
    }
}

proof fn lemma_latest_slot(sector: Seq<u8>, slots: int)
    requires
        slots <= RECORDS,
    ensures
        spec_latest(sector, slots) matches Some((slot, record)) ==> 0 <= slot < slots
            && spec_decode(slot_bytes(sector, slot as int)) == Some(record),
    decreases slots,
{
    if slots > 0 {
        lemma_latest_slot(sector, slots - 1);
    }
}

/// The newest record of the sector and its slot.
pub fn latest_record(sector: &[u8]) -> (r: Option<(usize, Record)>)
    requires
        sector@.len() == SECTOR_SIZE,
    ensures
        r == spec_latest(sector@, RECORDS as int),
        r matches Some((slot, record)) ==> slot < RECORDS && spec_decode(
            slot_bytes(sector@, slot as int),
        ) == Some(record),
{
    let mut best: Option<(usize, Record)> = None;
    let mut slot: usize = 0;
    while slot < RECORDS
        invariant
            slot <= RECORDS,
            sector@.len() == SECTOR_SIZE,
            best == spec_latest(sector@, slot as int),
        decreases RECORDS - slot,
    {
        let offset = slot * RECORD_SIZE;
        let bytes = &sector[offset..offset + RECORD_SIZE];
        assert(bytes@ == slot_bytes(sector@, slot as int));
        match decode(bytes) {
            None => {},
            Some(record) => {
                best = match best {
                    Some((best_slot, current)) => if record.sequence >= current.sequence {
                        Some((slot, record))
                    } else {
                        Some((best_slot, current))
                    },
                    None => Some((slot, record)),
                };
            },
        }
        slot = slot + 1;
    }
    proof {
        lemma_latest_slot(sector@, RECORDS as int);
    }
    best
}

/// The sequence of the newest record, if any.
pub fn latest_sequence(sector: &[u8]) -> (r: Option<u64>)
    requires
        sector@.len() == SECTOR_SIZE,
    ensures
        r == (match spec_latest(sector@, RECORDS as int) {
            Some((_, record)) => Some(record.sequence),
            None => None,
        }),
{
    match latest_record(sector) {
        Some((_, record)) => Some(record.sequence),
        None => None,
    }
}

/// Where the next record goes and the sequence it gets: after the newest one, or
/// the first slot with sequence 1 in an empty log.
pub open spec fn next_position(sector: Seq<u8>) -> (usize, u64) {
    match spec_latest(sector, RECORDS as int) {
        Some((slot, record)) => (
            ((slot + 1) % (RECORDS as int)) as usize,
            if record.sequence == u64::MAX {
                u64::MAX
            } else {
                (record.sequence + 1) as u64
            },
        ),
        None => (0, 1),
    }
}

/// Appends `record` after the newest one, giving it the next sequence number unless
/// it carries one; returns the slot and the record written.
pub fn append_current(sector: &mut Vec<u8>, record: Record) -> (r: (usize, Record))
    requires
        old(sector)@.len() == SECTOR_SIZE,
    ensures
        final(sector)@.len() == SECTOR_SIZE,
        r.0 == next_position(old(sector)@).0,
        r.1 == (Record {
            sequence: if record.sequence == 0 {
                next_position(old(sector)@).1
            } else {
                record.sequence
            },
            ..record
        }),
        r.0 < RECORDS,
        spec_decode(slot_bytes(final(sector)@, r.0 as int)) == Some(r.1),
        forall|i: int|
            0 <= i < SECTOR_SIZE && !(r.0 * RECORD_SIZE <= i < r.0 * RECORD_SIZE + RECORD_SIZE)
                ==> #[trigger] final(sector)@[i] == old(sector)@[i],
{
    let (slot, sequence) = match latest_record(sector.as_slice()) {
        Some((slot, current)) => ((slot + 1) % RECORDS, current.sequence.saturating_add(1)),
        None => (0, 1),
    };
    let written = Record {
        sequence: if record.sequence == 0 {
            sequence
        } else {
            record.sequence
        },
        ..record
    };
    append_record(sector, slot, written);
    (slot, written)
}

/// Starts a boot: appends a booting record after the newest one.
pub fn init(sector: &mut Vec<u8>) -> (r: (usize, Record))
    requires
        old(sector)@.len() == SECTOR_SIZE,
    ensures
        final(sector)@.len() == SECTOR_SIZE,
        r.0 == next_position(old(sector)@).0,
        r.1 == (Record {
            state: STATE_BOOTING,
            kind: 0,
            sequence: next_position(old(sector)@).1,
            code: 0,
            arg0: 0,
            arg1: 0,
        }),
        spec_decode(slot_bytes(final(sector)@, r.0 as int)) == Some(r.1),
{
    append_current(
        sector,
        Record { state: STATE_BOOTING, kind: 0, sequence: 0, code: 0, arg0: 0, arg1: 0 },
    )
}

/// Records that the boot completed.
pub fn mark_ready(sector: &mut Vec<u8>) -> (r: (usize, Record))
    requires
        old(sector)@.len() == SECTOR_SIZE,
    ensures
        final(sector)@.len() == SECTOR_SIZE,
        r.0 == next_position(old(sector)@).0,
        r.1 == (Record {
            state: STATE_READY,
            kind: 0,
            sequence: next_position(old(sector)@).1,
            code: 0,
            arg0: 0,
            arg1: 0,
        }),
        spec_decode(slot_bytes(final(sector)@, r.0 as int)) == Some(r.1),
{
    append_current(
        sector,
        Record { state: STATE_READY, kind: 0, sequence: 0, code: 0, arg0: 0, arg1: 0 },
    )
}

/// Records that the boot reached the checkpoint before architecture setup.
pub fn mark_checkpoint(sector: &mut Vec<u8>) -> (r: (usize, Record))
    requires
        old(sector)@.len() == SECTOR_SIZE,
    ensures
        final(sector)@.len() == SECTOR_SIZE,
        r.0 == next_position(old(sector)@).0,
        r.1 == (Record {
            state: STATE_CHECKPOINT,
            kind: 0,
            sequence: next_position(old(sector)@).1,
            code: 0,
            arg0: 0,
            arg1: 0,
        }),
        spec_decode(slot_bytes(final(sector)@, r.0 as int)) == Some(r.1),
{
    append_current(
        sector,
        Record { state: STATE_CHECKPOINT, kind: 0, sequence: 0, code: 0, arg0: 0, arg1: 0 },
    )
}

pub fn kind_name(kind: u8) -> (r: &'static str)
    ensures
        r == (if kind == 1 {
            "panic"
        } else if kind == 2 {
            "cpu-exception"
        } else if kind == 3 {
            "page-fault"
        } else {
            "unknown"
        }),
{
    match kind {
        1 => "panic",
        2 => "cpu-exception",
        3 => "page-fault",
        _ => "unknown",
    }
}

/// Checks the record encoding and that the newest record is found.
pub fn contract_self_check() {
    let record = Record { state: STATE_PANIC, kind: 2, sequence: 9, code: 0x2014, arg0: 0x4000, arg1: 7 };
    let mut bytes = encode(record);
    let decoded = decode(bytes.as_slice());
    assert(decoded == Some(record));
    let flipped = bytes[3] ^ 1;
    bytes.set(3, flipped);
    let corrupted = decode(bytes.as_slice());
    assert(corrupted is None) by {
        assert(flipped != 0x4e) by (bit_vector)
            requires
                flipped == 0x4eu8 ^ 1u8,
        ;
    }
    let mut sector = zeroes(SECTOR_SIZE);
    append_record(
        &mut sector,
        0,
        Record { state: STATE_BOOTING, kind: 0, sequence: 1, code: 0, arg0: 0, arg1: 0 },
    );
    let expected = Record { state: STATE_PANIC, kind: 3, sequence: 2, code: 0x2014, arg0: 0x1000, arg1: 5 };
    append_record(&mut sector, RECORDS - 1, expected);
    let latest = latest_record(sector.as_slice());
    assert(latest == Some(((RECORDS - 1) as usize, expected)));
}

} // verus!
