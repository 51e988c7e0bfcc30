use vstd::prelude::*;

verus! {

/// A set of kernel capabilities, one bit per capability (five bits are defined).
#[derive(Clone, Copy, Debug, PartialEq, Eq, Structural)]
pub struct CapabilitySet(u64);

pub const CLOCK: u64 = 1;
pub const LOG_WRITE: u64 = 2;
pub const PROCESS_SPAWN: u64 = 4;
pub const VFS_READ: u64 = 8;
pub const VFS_WRITE: u64 = 16;
pub const ALL_BITS: u64 = 0x1f;

impl View for CapabilitySet {
    type V = u64;

    /// The set's bits.
    closed spec fn view(&self) -> u64 {
        self.0
    }
}

impl CapabilitySet {
    /// Only the five defined capability bits are ever set.
    #[verifier::type_invariant]
    spec fn only_defined_bits(self) -> bool {
        self.0 <= ALL_BITS
    }

    /// The set of all five capabilities, as a value of the specification.
    pub closed spec fn spec_kernel() -> CapabilitySet {
        CapabilitySet(ALL_BITS)
    }

    /// What `spec_kernel` holds.
    pub proof fn lemma_spec_kernel()
        ensures
            Self::spec_kernel()@ == ALL_BITS,
    {
    }

    pub fn none() -> (r: Self)
        ensures
            r@ == 0,
    {
        CapabilitySet(0)
    }

    pub fn clock() -> (r: Self)
        ensures
            r@ == CLOCK,
    {
        CapabilitySet(CLOCK)
    }

    pub fn log_write() -> (r: Self)
        ensures
            r@ == LOG_WRITE,
    {
        CapabilitySet(LOG_WRITE)
    }

    pub fn process_spawn() -> (r: Self)
        ensures
            r@ == PROCESS_SPAWN,
    {
        CapabilitySet(PROCESS_SPAWN)
    }

    pub fn vfs_read() -> (r: Self)
        ensures
            r@ == VFS_READ,
    {
        CapabilitySet(VFS_READ)
    }

    pub fn vfs_write() -> (r: Self)
        ensures
            r@ == VFS_WRITE,
    {
        CapabilitySet(VFS_WRITE)
    }

    /// The capabilities of kernel-owned processes: all five.
    pub fn kernel() -> (r: Self)
        ensures
            r@ == ALL_BITS,
            r == Self::spec_kernel(),
    {
        CapabilitySet(ALL_BITS)
    }

    pub fn bits(self) -> (r: u64)
        ensures
            r == self@,
            r <= ALL_BITS,
    {
        proof {
            use_type_invariant(&self);
        }
        self.0
    }

    /// Keeps only the five defined capability bits.
    pub fn from_bits(bits: u64) -> (r: Self)
        ensures
            r@ == bits & ALL_BITS,
    {
        assert(bits & 0x1f <= 0x1f) by (bit_vector);
        CapabilitySet(bits & ALL_BITS)
    }

    pub fn union(self, other: Self) -> (r: Self)
        ensures
            r@ == self@ | other@,
    {
        proof {
            use_type_invariant(&self);
            use_type_invariant(&other);
        }
        let x = self.0;
        let y = other.0;
        assert(x <= 0x1f && y <= 0x1f ==> x | y <= 0x1f) by (bit_vector);
        CapabilitySet(x | y)
    }

    /// Every bit of `other` is in `self`.
    pub fn contains(self, other: Self) -> (r: bool)
        ensures
            r == (self@ & other@ == other@),
    {
        self.0 & other.0 == other.0
    }
}

pub open spec fn has(set: CapabilitySet, bit: u64) -> bool {
    set@ & bit == bit
}

/// The names of the capabilities in `set`, in bit order.
pub open spec fn spec_names(set: CapabilitySet) -> Seq<&'static str> {
    let s0 = if has(set, 1) { seq!["clock"] } else { Seq::<&'static str>::empty() };
    let s1 = if has(set, 2) { s0.push("log-write") } else { s0 };
    let s2 = if has(set, 4) { s1.push("process-spawn") } else { s1 };
    let s3 = if has(set, 8) { s2.push("vfs-read") } else { s2 };
    if has(set, 16) { s3.push("vfs-write") } else { s3 }
}

/// Lists the names of the capabilities in `set`, in bit order.
pub fn names(set: CapabilitySet) -> (r: Vec<&'static str>)
    ensures
        r@ == spec_names(set),
{
    let mut out: Vec<&'static str> = Vec::new();
    if set.contains(CapabilitySet::clock()) {
        out.push("clock");
    }
    if set.contains(CapabilitySet::log_write()) {
        out.push("log-write");
    }
    if set.contains(CapabilitySet::process_spawn()) {
        out.push("process-spawn");
    }
    if set.contains(CapabilitySet::vfs_read()) {
        out.push("vfs-read");
    }
    if set.contains(CapabilitySet::vfs_write()) {
        out.push("vfs-write");
    }
    out
}

/// The kernel set holds each of the five capabilities.
pub proof fn kernel_holds_all()
    ensures
        has(CapabilitySet::spec_kernel(), CLOCK),
        has(CapabilitySet::spec_kernel(), LOG_WRITE),
        has(CapabilitySet::spec_kernel(), PROCESS_SPAWN),
        has(CapabilitySet::spec_kernel(), VFS_READ),
        has(CapabilitySet::spec_kernel(), VFS_WRITE),
{
    assert(0x1fu64 & 1 == 1 && 0x1fu64 & 2 == 2 && 0x1fu64 & 4 == 4 && 0x1fu64 & 8 == 8 && 0x1fu64 & 16 == 16)
        by (bit_vector);
}

/// A union contains both of its operands.
pub proof fn union_contains_operands(a: CapabilitySet, b: CapabilitySet)
    ensures
        (a@ | b@) & a@ == a@,
        (a@ | b@) & b@ == b@,
{
    let x = a@;
    let y = b@;
    assert((x | y) & x == x && (x | y) & y == y) by (bit_vector);
}

} // verus!
