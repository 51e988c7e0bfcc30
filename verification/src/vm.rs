use vstd::prelude::*;

verus! {

/// What the MMU reported about a fault.
#[derive(Clone, Copy, Debug, PartialEq, Eq, Structural)]
pub enum FaultKind {
    Translation,
    Permission,
    Other,
}

/// A decoded page fault.
#[derive(Clone, Copy, Debug, PartialEq, Eq, Structural)]
pub struct FaultInfo {
    pub address: usize,
    pub raw: u64,
    pub kind: FaultKind,
    pub write: bool,
    pub instruction: bool,
    pub user: bool,
}

/// Why a user fault could not be resolved.
#[derive(Clone, Copy, Debug, PartialEq, Eq, Structural)]
pub enum FaultReason {
    Protection,
    StackOverflow,
    OutOfMemory,
    GuardPage,
    InvalidAddress,
}

/// How a fault was handled.
#[derive(Clone, Copy, Debug, PartialEq, Eq, Structural)]
pub enum FaultResult {
    Resolved,
    UserFault(FaultReason),
    KernelFatal,
}

} // verus!
