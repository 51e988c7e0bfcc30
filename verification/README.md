# lib: the verified core of a small kernel

This crate holds the decisions of a small x86_64/AArch64 kernel as verified Rust:
boot handoff parsing (Multiboot2, device trees, EFI memory maps), page-table
manipulation over a model of table memory, user address spaces, the system-call
I/O rings, the crash record, capabilities, the boot log overlay, a read-only btrfs
reader, and the drivers' protocol logic (PS/2, serial UARTs, PCI, virtio block and
network, xHCI and HID, display, audio, the block layer and the driver framework).

## Layout

- `src/` is the library; every function in it is verified by Verus against its
  `requires`/`ensures` contract, but for one trusted wrapper, `boot::utf8_text`,
  whose contract (the standard library's UTF-8 check) is taken as given.
- `tests/` exercises the library on concrete values.

## What stays outside the library

Hardware is reached through small traits whose implementations belong to the
platform: `Platform` (frames, page-table installation, physical writes),
`FrameAllocator`, `PortIo`/`Mmio` (UARTs), `Ps2Io`, `GicRegisters`,
`TimerHardware`, `ConfigSpace` (PCI), `NetIo`, `SectorDevice` and `SectorReader`
(block devices). What the hardware answers is not specified. Where a trait carries
a model, the library states its results over it: reads without side effects are
named (`ConfigSpace::register`, `GicRegisters::register`,
`SectorReader::sector_view`), and the traits whose accesses have effects record
them, with their answers, in a ghost log (`Platform::requests` and `written`,
`Mmio::accesses`, `PortIo::accesses`, `NetIo::accesses`, `GicRegisters::writes`).
Each such trait has an implementation in the library that holds its registers or
memory in ordinary data (`MemoryPlatform`, `RegisterWindow`, `PortBank`,
`ConfigTable`, `NetRegisters`, `GicTable`), used where no machine is present.
`PagedPlatform` runs address spaces over the verified x86_64 page tables
themselves, so a mapping an address space installs can be looked up in them.
Page tables themselves are modelled by `TableMemory`, a map from table frames to
their entries.

Bringing a virtio block device up is a step function, `virtio_blk::init_step`: from
where the initialization stands and the device's answer to the last register access,
it gives the next phase and the next access to make; the platform makes the access
and hands the answer back.

Also outside: inline assembly (entering user mode, switching page-table roots,
interrupt entry), printing to the console, and the global kernel state that ties
the pieces together at run time.
