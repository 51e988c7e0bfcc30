use vstd::prelude::*;
use crate::bytes::{lemma_le_u64_same, put_u64, spec_le_u64, zeroes};

verus! {

/// Bytes of the argument page at the top of the user stack.
pub const ARGV_PAGE_BYTES: usize = 256;
pub const ARGV_MAX: usize = 4;
pub const ARGV_TABLE_BYTES: usize = 128;
pub const ARG_BYTES: usize = 32;
pub const PAGE_BYTES: usize = 4096;

/// How many arguments the page holds.
pub open spec fn argc_of(args: Seq<Vec<u8>>) -> int {
    if args.len() < ARGV_MAX {
        args.len() as int
    } else {
        ARGV_MAX as int
    }
}

/// How many bytes of argument `i` the page holds: at most one short of its slot, which
/// keeps a terminating zero.
pub open spec fn arg_len(args: Seq<Vec<u8>>, i: int) -> int {
    if args[i]@.len() < ARG_BYTES - 1 {
        args[i]@.len() as int
    } else {
        ARG_BYTES - 1
    }
}

/// Whether byte `k` of the page belongs to argument `i`: its table entry or its text.
pub open spec fn in_entry(args: Seq<Vec<u8>>, i: int, k: int) -> bool {
    8 + 16 * i <= k < 24 + 16 * i || (ARGV_TABLE_BYTES + ARG_BYTES * i <= k < ARGV_TABLE_BYTES + ARG_BYTES * i
        + arg_len(args, i))
}

/// Whether byte `k` of the page belongs to the count or to one of the first `count`
/// arguments.
pub open spec fn argv_byte_used(args: Seq<Vec<u8>>, count: int, k: int) -> bool {
    k == 0 || exists|i: int| 0 <= i < count && #[trigger] in_entry(args, i, k)
}

/// The argument page for a page whose first byte the user sees at `argv_base`: byte 0 the
/// count (at most `ARGV_MAX`), then for each argument a little-endian pair at 8 + 16i of
/// where its text lies and how long it is, the text itself at 128 + 32i cut to 31 bytes,
/// and zeros everywhere else.
pub open spec fn argv_page_holds(page: Seq<u8>, args: Seq<Vec<u8>>, argv_base: u64) -> bool {
    &&& page.len() == ARGV_PAGE_BYTES
    &&& page[0] == argc_of(args)
    &&& forall|i: int|
        0 <= i < argc_of(args) ==> {
            &&& spec_le_u64(page, 8 + 16 * i) == argv_base + ARGV_TABLE_BYTES + ARG_BYTES * i
            &&& spec_le_u64(page, 16 + 16 * i) == arg_len(args, i)
            &&& forall|t: int|
                0 <= t < arg_len(args, i) ==> #[trigger] page[ARGV_TABLE_BYTES + ARG_BYTES * i + t] == args[i]@[t]
        }
    &&& forall|k: int| 0 <= k < ARGV_PAGE_BYTES && !argv_byte_used(args, argc_of(args), k) ==> #[trigger] page[k] == 0
}

/// Builds the argument page.
pub fn argv_page(args: &Vec<Vec<u8>>, argv_base: u64) -> (r: Vec<u8>)
    requires
        argv_base + ARGV_PAGE_BYTES <= u64::MAX,
    ensures
        argv_page_holds(r@, args@, argv_base),
{
    let mut page = zeroes(ARGV_PAGE_BYTES);
    let argc: usize = if args.len() < ARGV_MAX {
        args.len()
    } else {
        ARGV_MAX
    };
    page.set(0, argc as u8);
    let mut i: usize = 0;
    while i < argc
        invariant
            argc == argc_of(args@),
            argv_base + ARGV_PAGE_BYTES <= u64::MAX,
            i <= argc,
            page@.len() == ARGV_PAGE_BYTES,
            page@[0] == argc,
            forall|j: int|
                0 <= j < i ==> {
                    &&& spec_le_u64(page@, 8 + 16 * j) == argv_base + ARGV_TABLE_BYTES + ARG_BYTES * j
                    &&& spec_le_u64(page@, 16 + 16 * j) == arg_len(args@, j)
                    &&& forall|t: int|
                        0 <= t < arg_len(args@, j) ==> #[trigger] page@[ARGV_TABLE_BYTES + ARG_BYTES * j + t]
                            == args@[j]@[t]
                },
            forall|k: int| 0 <= k < ARGV_PAGE_BYTES && !argv_byte_used(args@, i as int, k) ==> #[trigger] page@[k] == 0,
        decreases argc - i,
    {
        let arg = &args[i];
        let len: usize = if arg.len() < ARG_BYTES - 1 {
            arg.len()
        } else {
            ARG_BYTES - 1
        };
        let ghost before = page@;
        let text = ARGV_TABLE_BYTES + i * ARG_BYTES;
        put_u64(&mut page, 8 + 16 * i, argv_base + (ARGV_TABLE_BYTES + i * ARG_BYTES) as u64);
        put_u64(&mut page, 16 + 16 * i, len as u64);
        let ghost after_table = page@;
        let mut t: usize = 0;
        while t < len
            invariant
                t <= len,
                len <= 31,
                len == arg_len(args@, i as int),
                text == ARGV_TABLE_BYTES + ARG_BYTES * i,
                i < ARGV_MAX,
                arg == args@[i as int],
                page@.len() == ARGV_PAGE_BYTES,
                forall|s: int| 0 <= s < t ==> #[trigger] page@[text + s] == arg@[s],
                forall|k: int|
                    0 <= k < ARGV_PAGE_BYTES && !(text <= k < text + t) ==> #[trigger] page@[k] == after_table[k],
            decreases len - t,
        {
            page.set(text + t, arg[t]);
            t = t + 1;
        }
        proof {
            let ii = i as int;
            assert forall|j: int| 0 <= j < ii implies {
                &&& spec_le_u64(page@, 8 + 16 * j) == argv_base + ARGV_TABLE_BYTES + ARG_BYTES * j
                &&& spec_le_u64(page@, 16 + 16 * j) == #[trigger] arg_len(args@, j)
                &&& forall|t: int|
                    0 <= t < arg_len(args@, j) ==> #[trigger] page@[ARGV_TABLE_BYTES + ARG_BYTES * j + t]
                        == args@[j]@[t]
            } by {
                assert forall|k: int| 8 + 16 * j <= k < 8 + 16 * j + 8 implies page@[k] == before[k] by {
                    assert(page@[k] == after_table[k]);
                }
                assert forall|k: int| 16 + 16 * j <= k < 16 + 16 * j + 8 implies page@[k] == before[k] by {
                    assert(page@[k] == after_table[k]);
                }
                lemma_le_u64_same(page@, before, 8 + 16 * j);
                lemma_le_u64_same(page@, before, 16 + 16 * j);
                assert forall|t: int| 0 <= t < arg_len(args@, j) implies #[trigger] page@[ARGV_TABLE_BYTES + ARG_BYTES * j
                    + t] == args@[j]@[t] by {
                    assert(page@[ARGV_TABLE_BYTES + ARG_BYTES * j + t] == after_table[ARGV_TABLE_BYTES + ARG_BYTES * j + t]);
                }
            }
            assert forall|k: int| 8 + 16 * ii <= k < 8 + 16 * ii + 8 implies page@[k] == after_table[k] by {}
            assert forall|k: int| 16 + 16 * ii <= k < 16 + 16 * ii + 8 implies page@[k] == after_table[k] by {}
            lemma_le_u64_same(page@, after_table, 8 + 16 * ii);
            lemma_le_u64_same(page@, after_table, 16 + 16 * ii);
            assert forall|k: int|
                0 <= k < ARGV_PAGE_BYTES && !argv_byte_used(args@, ii + 1, k) implies #[trigger] page@[k] == 0 by {
                assert(!argv_byte_used(args@, ii, k)) by {
                    if argv_byte_used(args@, ii, k) && k != 0 {
                        let w = choose|w: int| 0 <= w < ii && #[trigger] in_entry(args@, w, k);
                        assert(0 <= w < ii + 1 && in_entry(args@, w, k));
                    }
                }
                assert(!in_entry(args@, ii, k)) by {
                    if in_entry(args@, ii, k) {
                        assert(0 <= ii < ii + 1);
                    }
                }
                assert(page@[k] == after_table[k]);
                assert(after_table[k] == before[k]);
            }
        }
        i = i + 1;
    }
    proof {
        assert(argv_page_holds(page@, args@, argv_base));
    }
    page
}

/// The code page: `bytes` followed by zeros to the end of the page; `None` when they do not
/// fit in a page.
pub fn code_page(bytes: &[u8]) -> (r: Option<Vec<u8>>)
    ensures
        bytes@.len() > PAGE_BYTES ==> r is None,
        bytes@.len() <= PAGE_BYTES ==> (r matches Some(page) && page@.len() == PAGE_BYTES && page@.subrange(
            0,
            bytes@.len() as int,
        ) == bytes@ && forall|k: int| bytes@.len() <= k < PAGE_BYTES ==> #[trigger] page@[k] == 0),
{
    if bytes.len() > PAGE_BYTES {
        return None;
    }
    let mut page = zeroes(PAGE_BYTES);
    let mut i: usize = 0;
    while i < bytes.len()
        invariant
            bytes@.len() <= PAGE_BYTES,
            i <= bytes@.len(),
            page@.len() == PAGE_BYTES,
            forall|k: int| 0 <= k < i ==> #[trigger] page@[k] == bytes@[k],
            forall|k: int| i <= k < PAGE_BYTES ==> #[trigger] page@[k] == 0,
        decreases bytes@.len() - i,
    {
        page.set(i, bytes[i]);
        i = i + 1;
    }
    assert(page@.subrange(0, bytes@.len() as int) =~= bytes@);
    Some(page)
}

/// The page of one of two user regions (code and stack, each one page at `base` held by
/// `frame`) that holds `len` bytes from `va`, with the offset into it; the code region is
/// tried first.
pub open spec fn spec_frame_offset(va: u64, len: usize, regions: Seq<(u64, u64)>) -> Option<(u64, usize)> {
    if va >= regions[0].0 && va - regions[0].0 + len <= PAGE_BYTES {
        Some((regions[0].1, (va - regions[0].0) as usize))
    } else if va >= regions[1].0 && va - regions[1].0 + len <= PAGE_BYTES {
        Some((regions[1].1, (va - regions[1].0) as usize))
    } else {
        None
    }
}

pub fn frame_offset(va: u64, len: usize, regions: [(u64, u64); 2]) -> (r: Option<(u64, usize)>)
    ensures
        r == spec_frame_offset(va, len, regions@),
{
    let mut k: usize = 0;
    while k < 2
        invariant
            k <= 2,
            forall|j: int|
                0 <= j < k ==> !(va >= regions@[j].0 && va - regions@[j].0 + len <= PAGE_BYTES),
        decreases 2 - k,
    {
        let (base, frame) = regions[k];
        if va >= base && va - base <= PAGE_BYTES as u64 && len <= PAGE_BYTES - (va - base) as usize {
            return Some((frame, (va - base) as usize));
        }
        k = k + 1;
    }
    None
}

} // verus!
