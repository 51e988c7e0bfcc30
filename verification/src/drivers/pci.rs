use vstd::prelude::*;

verus! {

pub const CONFIG_ADDRESS: u16 = 0x0cf8;
pub const CONFIG_DATA: u16 = 0x0cfc;

#[derive(Clone, Copy, Debug, PartialEq, Eq, Structural)]
pub struct Address {
    pub bus: u8,
    pub slot: u8,
    pub function: u8,
}

#[derive(Clone, Copy, Debug, PartialEq, Eq, Structural)]
pub enum Bar {
    Pio(u16),
    Mmio(u64),
}

/// Access to configuration space: the platform's port pair, or a table of registers.
/// A read does not change the space, so what it answers is named: `register` is what
/// register `offset` of `address` reads as now. What a write does to later reads is the
/// device's own and is not said; `writes` records the writes made, in order.
pub trait ConfigSpace {
    spec fn register(&self, address: Address, offset: u8) -> u32;

    spec fn writes(&self) -> Seq<(Address, u8, u32)>;

    fn read(&self, address: Address, offset: u8) -> (r: u32)
        ensures
            r == self.register(address, offset),
    ;

    fn write(&mut self, address: Address, offset: u8, value: u32)
        ensures
            final(self).writes() == old(self).writes().push((address, offset, value)),
    ;
}

/// The value `table` holds for register `offset` of `address`: the latest entry for it,
/// and all ones (no device) when there is none.
pub open spec fn table_value(table: Seq<(Address, u8, u32)>, address: Address, offset: u8) -> u32
    decreases table.len(),
{
    if table.len() == 0 {
        u32::MAX
    } else if table.last().0 == address && table.last().1 == offset {
        table.last().2
    } else {
        table_value(table.drop_last(), address, offset)
    }
}

/// Configuration space held as a table of registers: a register reads as the latest
/// value set or written for it, and as all ones when it has none, as absent functions
/// read.
pub struct ConfigTable {
    pub entries: Vec<(Address, u8, u32)>,
    pub written: Ghost<Seq<(Address, u8, u32)>>,
}

impl ConfigTable {
    /// A space in which every register reads as all ones.
    pub fn new() -> (r: Self)
        ensures
            r.entries@.len() == 0,
            r.written@.len() == 0,
    {
        ConfigTable { entries: Vec::new(), written: Ghost(Seq::empty()) }
    }

    /// Gives register `offset` of `address` the value `value`, as a device would hold it.
    pub fn set(&mut self, address: Address, offset: u8, value: u32)
        ensures
            final(self).entries@ == old(self).entries@.push((address, offset, value)),
            final(self).written@ == old(self).written@,
    {
        self.entries.push((address, offset, value));
    }
}

impl ConfigSpace for ConfigTable {
    open spec fn register(&self, address: Address, offset: u8) -> u32 {
        table_value(self.entries@, address, offset)
    }

    open spec fn writes(&self) -> Seq<(Address, u8, u32)> {
        self.written@
    }

    fn read(&self, address: Address, offset: u8) -> (r: u32) {
        let mut i = self.entries.len();
        assert(self.entries@.take(i as int) =~= self.entries@);
        while i > 0
            invariant
                i <= self.entries@.len(),
                table_value(self.entries@, address, offset) == table_value(self.entries@.take(i as int), address, offset),
            decreases i,
        {
            let entry = self.entries[i - 1];
            assert(self.entries@.take(i as int).drop_last() =~= self.entries@.take(i - 1));
            if entry.0 == address && entry.1 == offset {
                return entry.2;
            }
            i = i - 1;
        }
        u32::MAX
    }

    fn write(&mut self, address: Address, offset: u8, value: u32)
        ensures
            final(self).entries@ == old(self).entries@.push((address, offset, value)),
    {
        self.entries.push((address, offset, value));
        proof {
            self.written@ = self.written@.push((address, offset, value));
        }
    }
}

/// The value written to the configuration address port to select a register.
pub open spec fn spec_config_address(address: Address, offset: u8) -> u32 {
    0x8000_0000u32 | ((address.bus as u32) << 16u32) | ((address.slot as u32) << 11u32) | ((
    address.function as u32) << 8u32) | ((offset as u32) & 0xfcu32)
}

pub fn config_address(address: Address, offset: u8) -> (r: u32)
    ensures
        r == spec_config_address(address, offset),
{
    0x8000_0000u32 | ((address.bus as u32) << 16u32) | ((address.slot as u32) << 11u32) | ((
    address.function as u32) << 8u32) | ((offset as u32) & 0xfcu32)
}

/// The base class, subclass and programming interface of a class register match.
#[verifier::allow_in_spec]
pub fn class_code_matches(config_class: u32, expected: u32) -> bool
    returns
        (config_class >> 8u32) & 0x00ff_ffffu32 == expected,
{
    (config_class >> 8u32) & 0x00ff_ffffu32 == expected
}

/// What a base address register decodes to: a port base, or a memory base (with the
/// upper half for a 64-bit register); empty or unreadable registers decode to none.
pub open spec fn spec_decode_bar(lower: u32, upper: Option<u32>) -> Option<Bar> {
    if lower == 0 || lower == u32::MAX {
        None
    } else if lower & 1 != 0 {
        Some(Bar::Pio((lower & !3u32) as u16))
    } else if lower & 6 == 4 {
        match upper {
            None => None,
            Some(high) => {
                let base = ((high as u64) << 32u64) | ((lower as u64) & 0xffff_fff0u64);
                if base != 0 {
                    Some(Bar::Mmio(base))
                } else {
                    None
                }
            },
        }
    } else {
        let base = (lower as u64) & 0xffff_fff0u64;
        if base != 0 {
            Some(Bar::Mmio(base))
        } else {
            None
        }
    }
}

pub fn decode_bar(lower: u32, upper: Option<u32>) -> (r: Option<Bar>)
    ensures
        r == spec_decode_bar(lower, upper),
{
    if lower == 0 || lower == u32::MAX {
        return None;
    }
    if lower & 1 != 0 {
        return Some(Bar::Pio((lower & !3u32) as u16));
    }
    let base: u64 = if lower & 6 == 4 {
        match upper {
            None => return None,
            Some(high) => ((high as u64) << 32u64) | ((lower as u64) & 0xffff_fff0u64),
        }
    } else {
        (lower as u64) & 0xffff_fff0u64
    };
    if base != 0 {
        Some(Bar::Mmio(base))
    } else {
        None
    }
}

/// The command register with I/O, memory and bus mastering turned on as asked.
pub fn enable_command(command: u16, io: bool, memory: bool, bus_master: bool) -> (r: u16)
    ensures
        r == command | (if io {
            1u16
        } else {
            0u16
        }) | (if memory {
            2u16
        } else {
            0u16
        }) | (if bus_master {
            4u16
        } else {
            0u16
        }),
{
    let io_bit: u16 = if io {
        1
    } else {
        0
    };
    let memory_bit: u16 = if memory {
        2
    } else {
        0
    };
    let master_bit: u16 = if bus_master {
        4
    } else {
        0
    };
    command | io_bit | memory_bit | master_bit
}

#[derive(Clone, Copy, Debug, PartialEq, Eq, Structural)]
pub struct Device {
    pub address: Address,
    pub vendor: u16,
    pub device: u16,
}

impl Device {
    /// The device a function's identity register names.
    pub fn from_identity(device: Self, identity: u32) -> (r: Self)
        ensures
            r.address == device.address,
            r.vendor == identity as u16,
            r.device == (identity >> 16u32) as u16,
    {
        Device { vendor: identity as u16, device: (identity >> 16u32) as u16, ..device }
    }

    /// Register `offset` of this function.
    pub fn read<C: ConfigSpace>(self, config: &C, offset: u8) -> (r: u32)
        ensures
            r == config.register(self.address, offset),
    {
        config.read(self.address, offset)
    }

    /// Base address register `index` (0 to 5); a 64-bit memory register takes its
    /// upper half from the next register.
    pub fn bar<C: ConfigSpace>(self, config: &C, index: u8) -> (r: Option<Bar>)
        ensures
            index > 5 ==> r is None,
            index <= 5 ==> ({
                let lower = config.register(self.address, (0x10 + index * 4) as u8);
                r == (if lower == 0 || lower == u32::MAX {
                    None
                } else {
                    spec_decode_bar(
                        lower,
                        if lower & 6 == 4 {
                            Some(config.register(self.address, (0x10 + index * 4 + 4) as u8))
                        } else {
                            None
                        },
                    )
                })
            }),
            r matches Some(Bar::Mmio(base)) ==> base != 0 && base % 16 == 0,
    {
        if index > 5 {
            return None;
        }
        let offset: u8 = 0x10 + index * 4;
        let lower = self.read(config, offset);
        if lower == 0 || lower == u32::MAX {
            return None;
        }
        let upper = if lower & 6 == 4 {
            Some(self.read(config, offset + 4))
        } else {
            None
        };
        let r = decode_bar(lower, upper);
        proof {
            lemma_mmio_base_aligned(lower, upper);
        }
        r
    }

    /// Turns on the requested decoding and bus mastering, and reports whether the
    /// register kept them.
    pub fn enable<C: ConfigSpace>(self, config: &mut C, io: bool, memory: bool, bus_master: bool) -> (r:
        bool)
        ensures
            ({
                let command = (old(config).register(self.address, 0x04) as u16) | (if io {
                    1u16
                } else {
                    0u16
                }) | (if memory {
                    2u16
                } else {
                    0u16
                }) | (if bus_master {
                    4u16
                } else {
                    0u16
                });
                &&& final(config).writes() == old(config).writes().push((self.address, 0x04u8, command as u32))
                &&& r == ((final(config).register(self.address, 0x04) as u16) & command == command)
            }),
    {
        let current = self.read(config, 0x04) as u16;
        let command = enable_command(current, io, memory, bus_master);
        config.write(self.address, 0x04, command as u32);
        let after = self.read(config, 0x04) as u16;
        after & command == command
    }

    /// The interrupt line register's low byte.
    pub fn irq_line<C: ConfigSpace>(self, config: &C) -> (r: u8)
        ensures
            r == config.register(self.address, 0x3c) as u8,
    {
        self.read(config, 0x3c) as u8
    }
}

proof fn lemma_mmio_base_aligned(lower: u32, upper: Option<u32>)
    ensures
        spec_decode_bar(lower, upper) matches Some(Bar::Mmio(base)) ==> base != 0 && base % 16 == 0,
{
    let low = (lower as u64) & 0xffff_fff0u64;
    assert(low % 16 == 0) by (bit_vector)
        requires
            low == (lower as u64) & 0xffff_fff0u64,
    ;
    match upper {
        Some(high) => {
            let base = ((high as u64) << 32u64) | low;
            assert(base % 16 == 0) by (bit_vector)
                requires
                    base == ((high as u64) << 32u64) | low,
                    low % 16 == 0,
            ;
        },
        None => {},
    }
}

/// The scan for a function of class `class_code` (and vendor `vendor`, when given) on
/// bus 0, from `slot` and `function` on: each function's identity register is read;
/// all ones means no function there, and for function 0 the rest of the slot is
/// skipped; otherwise the function is the answer when its vendor and class register
/// match.
pub open spec fn class_scan<C: ConfigSpace>(config: C, class_code: u32, vendor: Option<u16>, slot: int, function: int) -> Option<
    Device,
>
    decreases 32 - slot, 8 - function,
{
    if slot >= 32 || slot < 0 || function < 0 {
        None
    } else if function >= 8 {
        class_scan(config, class_code, vendor, slot + 1, 0)
    } else {
        let address = Address { bus: 0, slot: slot as u8, function: function as u8 };
        let identity = config.register(address, 0x00);
        if identity == u32::MAX {
            if function == 0 {
                class_scan(config, class_code, vendor, slot + 1, 0)
            } else {
                class_scan(config, class_code, vendor, slot, function + 1)
            }
        } else {
            let candidate = Device { address, vendor: identity as u16, device: (identity >> 16u32) as u16 };
            if (match vendor {
                None => true,
                Some(v) => v == candidate.vendor,
            }) && (config.register(address, 0x08) >> 8u32) & 0x00ff_ffffu32 == class_code {
                Some(candidate)
            } else {
                class_scan(config, class_code, vendor, slot, function + 1)
            }
        }
    }
}

/// The first function on bus 0 whose class register matches `class_code`, and whose
/// vendor matches when one is given; a missing function 0 ends a slot.
pub fn find_class_vendor<C: ConfigSpace>(config: &C, class_code: u32, vendor: Option<u16>) -> (r:
    Option<Device>)
    ensures
        r == class_scan(*config, class_code, vendor, 0, 0),
        r matches Some(device) ==> device.address.bus == 0 && device.address.slot < 32
            && device.address.function < 8 && (vendor matches Some(v) ==> device.vendor == v),
{
    let mut slot: u8 = 0;
    while slot < 32
        invariant
            slot <= 32,
            class_scan(*config, class_code, vendor, 0, 0) == class_scan(*config, class_code, vendor, slot as int, 0),
        decreases 32 - slot,
    {
        let mut function: u8 = 0;
        let mut skip = false;
        while function < 8
            invariant_except_break
                slot < 32,
                function <= 8,
                !skip,
                class_scan(*config, class_code, vendor, 0, 0) == class_scan(*config, class_code, vendor, slot as int, function as int),
            ensures
                slot < 32,
                skip ==> class_scan(*config, class_code, vendor, 0, 0) == class_scan(*config, class_code, vendor, slot + 1, 0),
                !skip ==> function == 8 && class_scan(*config, class_code, vendor, 0, 0) == class_scan(*config, class_code, vendor, slot as int, 8),
            decreases 8 - function,
        {
            let device = Device { address: Address { bus: 0, slot, function }, vendor: 0, device: 0 };
            let identity = device.read(config, 0x00);
            if identity == u32::MAX {
                if function == 0 {
                    skip = true;
                    break;
                }
                function = function + 1;
                continue;
            }
            let candidate = Device::from_identity(device, identity);
            let vendor_ok = match vendor {
                None => true,
                Some(expected) => expected == candidate.vendor,
            };
            if vendor_ok && class_code_matches(candidate.read(config, 0x08), class_code) {
                return Some(candidate);
            }
            function = function + 1;
        }
        slot = slot + 1;
    }
    None
}

pub fn find_class<C: ConfigSpace>(config: &C, class_code: u32) -> (r: Option<Device>)
    ensures
        r == class_scan(*config, class_code, None, 0, 0),
        r matches Some(device) ==> device.address.bus == 0 && device.address.slot < 32
            && device.address.function < 8,
{
    find_class_vendor(config, class_code, None)
}

/// Checks class matching and base address decoding.
pub fn contract_self_check() {
    assert((0x0100_0000u32 >> 8u32) & 0x00ff_ffffu32 == 0x0001_0000u32 && (0x0200_0000u32 >> 8u32) & 0x00ff_ffffu32
        != 0x0001_0000u32 && (0x0100_0100u32 >> 8u32) & 0x00ff_ffffu32 != 0x0001_0000u32 && 0xfebf_8000u32 & 1u32
        == 0u32 && 0xfebf_8000u32 & 6u32 == 0u32 && (0xfebf_8000u32 as u64) & 0xffff_fff0u64 == 0xfebf_8000u64
        && 4u32 & 1u32 == 0u32 && 4u32 & 6u32 == 4u32 && ((1u32 as u64) << 32u64) | ((4u32 as u64)
        & 0xffff_fff0u64) == 0x0000_0001_0000_0000u64 && 1u32 & 1u32 != 0u32 && 1u32 & !3u32 == 0u32)
        by (bit_vector);
    let address = Address { bus: 0, slot: 3, function: 0 };
    assert(address.slot == 3);
    let m = class_code_matches(0x0100_0000, 0x0001_0000);
    assert(m);
    let m = class_code_matches(0x0200_0000, 0x0001_0000);
    assert(!m);
    let m = class_code_matches(0x0100_0100, 0x0001_0000);
    assert(!m);
    let b = decode_bar(0xfebf_8000, None);
    assert(b == Some(Bar::Mmio(0xfebf_8000)));
    let b = decode_bar(0x0000_0004, Some(0x0000_0001));
    assert(b == Some(Bar::Mmio(0x0000_0001_0000_0000)));
    let b = decode_bar(0x0000_0001, None);
    assert(b == Some(Bar::Pio(0)));
    let b = decode_bar(0, None);
    assert(b is None);
}

/// The configuration address selects exactly the register asked for: the enable bit
/// is set, the bus sits in bits 23..16, the slot in bits 15..11, the function in bits
/// 10..8 and the dword-aligned offset in bits 7..2, so distinct functions (slot below 32,
/// function below 8) and dword offsets never share an address.
pub proof fn law_config_address_fields(address: Address, offset: u8, other: Address, other_offset: u8)
    requires
        address.slot < 32,
        address.function < 8,
        other.slot < 32,
        other.function < 8,
    ensures
        spec_config_address(address, offset) & 0x8000_0000u32 != 0,
        (spec_config_address(address, offset) >> 16u32) & 0xffu32 == address.bus as u32,
        (spec_config_address(address, offset) >> 11u32) & 0x1fu32 == address.slot as u32,
        (spec_config_address(address, offset) >> 8u32) & 0x7u32 == address.function as u32,
        spec_config_address(address, offset) & 0xffu32 == (offset as u32) & 0xfcu32,
        spec_config_address(address, offset) & 0x7f00_0000u32 == 0,
        spec_config_address(address, offset) == spec_config_address(other, other_offset) ==> address == other
            && offset & 0xfc == other_offset & 0xfc,
{
    let b = address.bus as u32;
    let s = address.slot as u32;
    let f = address.function as u32;
    let o = offset as u32;
    let r = spec_config_address(address, offset);
    assert(r == 0x8000_0000u32 | (b << 16u32) | (s << 11u32) | (f << 8u32) | (o & 0xfcu32));
    assert({
        let x = 0x8000_0000u32 | (b << 16u32) | (s << 11u32) | (f << 8u32) | (o & 0xfcu32);
        &&& x & 0x8000_0000u32 != 0
        &&& (x >> 16u32) & 0xffu32 == b
        &&& (x >> 11u32) & 0x1fu32 == s
        &&& (x >> 8u32) & 0x7u32 == f
        &&& x & 0xffu32 == o & 0xfcu32
        &&& x & 0x7f00_0000u32 == 0
    }) by (bit_vector)
        requires
            b < 256,
            s < 32,
            f < 8,
            o < 256,
    ;
    let b2 = other.bus as u32;
    let s2 = other.slot as u32;
    let f2 = other.function as u32;
    let o2 = other_offset as u32;
    let r2 = spec_config_address(other, other_offset);
    assert(r2 == 0x8000_0000u32 | (b2 << 16u32) | (s2 << 11u32) | (f2 << 8u32) | (o2 & 0xfcu32));
    assert({
        let x = 0x8000_0000u32 | (b2 << 16u32) | (s2 << 11u32) | (f2 << 8u32) | (o2 & 0xfcu32);
        &&& (x >> 16u32) & 0xffu32 == b2
        &&& (x >> 11u32) & 0x1fu32 == s2
        &&& (x >> 8u32) & 0x7u32 == f2
        &&& x & 0xffu32 == o2 & 0xfcu32
    }) by (bit_vector)
        requires
            b2 < 256,
            s2 < 32,
            f2 < 8,
            o2 < 256,
    ;
    assert((offset as u32) & 0xfcu32 == (offset & 0xfc) as u32 && (other_offset as u32) & 0xfcu32 == (other_offset
        & 0xfc) as u32) by (bit_vector);
}

} // verus!
