//! Verified core of the Norx kernel: address arithmetic, capability sets,
//! the universal syscall ABI, per-process address spaces, the driver
//! framework, the btrfs reader, input decoders and device protocol logic.

pub mod address;
pub mod bytes;
pub mod capability;
pub mod address_space;
pub mod abi;
pub mod vm;
pub mod input;
pub mod crash;
pub mod bootlog;
pub mod boot;
pub mod drivers;
pub mod btrfs;
pub mod arch;
