use vstd::prelude::*;

verus! {

/// A physical address.
#[derive(Clone, Copy, Debug, PartialEq, Eq, Structural)]
pub struct PhysAddr(pub u64);

/// A virtual address.
#[derive(Clone, Copy, Debug, PartialEq, Eq, Structural)]
pub struct VirtAddr(pub usize);

/// `value` is a power of two (1, 2, 4, ...).
pub open spec fn is_pow2(value: int) -> bool
    decreases value,
{
    if value <= 0 {
        false
    } else if value == 1 {
        true
    } else {
        value % 2 == 0 && is_pow2(value / 2)
    }
}

/// Decides whether `value` is a power of two.
pub fn is_power_of_two(value: u64) -> (r: bool)
    ensures
        r == is_pow2(value as int),
{
    let mut v: u64 = value;
    if v == 0 {
        return false;
    }
    while v != 1
        invariant
            v >= 1,
            is_pow2(value as int) == is_pow2(v as int),
        decreases v,
    {
        if v % 2 != 0 {
            return false;
        }
        v = v / 2;
    }
    true
}

impl PhysAddr {
    pub fn new(value: u64) -> (r: Self)
        ensures
            r.0 == value,
    {
        PhysAddr(value)
    }

    pub fn value(self) -> (r: u64)
        ensures
            r == self.0,
    {
        self.0
    }

    /// True when `alignment` is a power of two and the address is a multiple of it.
    pub fn is_aligned(self, alignment: usize) -> (r: bool)
        ensures
            r == (is_pow2(alignment as int) && (self.0 as int) % (alignment as int) == 0),
    {
        is_power_of_two(alignment as u64) && self.0 % (alignment as u64) == 0
    }

    /// Adds `bytes`, or `None` when the sum does not fit in 64 bits.
    pub fn checked_add(self, bytes: usize) -> (r: Option<Self>)
        ensures
            r.is_some() <==> self.0 + bytes <= u64::MAX,
            r.is_some() ==> r.unwrap().0 == self.0 + bytes,
    {
        match self.0.checked_add(bytes as u64) {
            Some(v) => Some(PhysAddr(v)),
            None => None,
        }
    }
}

impl VirtAddr {
    pub fn new(value: usize) -> (r: Self)
        ensures
            r.0 == value,
    {
        VirtAddr(value)
    }

    pub fn value(self) -> (r: usize)
        ensures
            r == self.0,
    {
        self.0
    }

    /// True when `alignment` is a power of two and the address is a multiple of it.
    pub fn is_aligned(self, alignment: usize) -> (r: bool)
        ensures
            r == (is_pow2(alignment as int) && (self.0 as int) % (alignment as int) == 0),
    {
        is_power_of_two(alignment as u64) && self.0 % alignment == 0
    }

    /// Adds `bytes`, or `None` when the sum does not fit in a `usize`.
    pub fn checked_add(self, bytes: usize) -> (r: Option<Self>)
        ensures
            r.is_some() <==> self.0 + bytes <= usize::MAX,
            r.is_some() ==> r.unwrap().0 == self.0 + bytes,
    {
        match self.0.checked_add(bytes) {
            Some(v) => Some(VirtAddr(v)),
            None => None,
        }
    }
}

} // verus!
