use vstd::prelude::*;

pub mod ns16550;
pub mod pl011;

verus! {

/// How many times a transmitter is polled before a byte is given up.
pub const EARLY_TX_POLL_LIMIT: usize = 4096;

#[derive(Clone, Copy, Debug, PartialEq, Eq, Structural)]
pub enum FailureReason {
    Init,
    TxTimeout,
}

pub open spec fn spec_reason_code(reason: FailureReason) -> u8 {
    match reason {
        FailureReason::Init => 1,
        FailureReason::TxTimeout => 2,
    }
}

impl FailureReason {
    pub fn name(self) -> (r: &'static str)
        ensures
            r == (match self {
                FailureReason::Init => "init",
                FailureReason::TxTimeout => "tx-timeout",
            }),
    {
        match self {
            FailureReason::Init => "init",
            FailureReason::TxTimeout => "tx-timeout",
        }
    }

    /// The non-zero code under which the reason is stored.
    pub fn code(self) -> (r: u8)
        ensures
            r == spec_reason_code(self),
            r != 0,
    {
        match self {
            FailureReason::Init => 1,
            FailureReason::TxTimeout => 2,
        }
    }
}

/// The reason stored under `code`, if any.
pub fn failure_reason_code(code: u8) -> (r: Option<FailureReason>)
    ensures
        r == (if code == 1 {
            Some(FailureReason::Init)
        } else if code == 2 {
            Some(FailureReason::TxTimeout)
        } else {
            None::<FailureReason>
        }),
{
    match code {
        1 => Some(FailureReason::Init),
        2 => Some(FailureReason::TxTimeout),
        _ => None,
    }
}

/// Decoding a reason's code gives the reason back.
pub proof fn law_reason_code_roundtrip(reason: FailureReason)
    ensures
        spec_reason_code(reason) != 0,
        (if spec_reason_code(reason) == 1 {
            Some(FailureReason::Init)
        } else if spec_reason_code(reason) == 2 {
            Some(FailureReason::TxTimeout)
        } else {
            None::<FailureReason>
        }) == Some(reason),
{
}

#[derive(Clone, Copy, Debug, PartialEq, Eq, Structural)]
pub enum FlowControl {
    Disabled,
    RtsCts,
}

#[derive(Clone, Copy, Debug, PartialEq, Eq, Structural)]
pub struct SerialConfig {
    pub clock_hz: u32,
    pub baud: u32,
    pub fifo: bool,
    pub flow_control: FlowControl,
}

impl SerialConfig {
    pub fn new(clock_hz: u32, baud: u32, fifo: bool, flow_control: FlowControl) -> (r: Self)
        ensures
            r == (SerialConfig { clock_hz, baud, fifo, flow_control }),
    {
        SerialConfig { clock_hz, baud, fifo, flow_control }
    }
}

/// Whether the console has failed, and the first reason it failed for.
#[derive(Clone, Copy, Debug, PartialEq, Eq, Structural)]
pub struct SerialStatus {
    pub failed: bool,
    pub reason: u8,
}

impl SerialStatus {
    pub fn new() -> (r: Self)
        ensures
            !r.failed && r.reason == 0,
    {
        SerialStatus { failed: false, reason: 0 }
    }

    pub fn available(&self) -> (r: bool)
        ensures
            r == !self.failed,
    {
        !self.failed
    }

    pub fn failure_reason(&self) -> (r: Option<FailureReason>)
        ensures
            r == (if self.reason == 1 {
                Some(FailureReason::Init)
            } else if self.reason == 2 {
                Some(FailureReason::TxTimeout)
            } else {
                None::<FailureReason>
            }),
    {
        failure_reason_code(self.reason)
    }

    /// Marks the console failed; the first reason recorded is kept.
    pub fn mark_failed(&mut self, reason: FailureReason)
        ensures
            final(self).failed,
            final(self).reason == (if old(self).reason == 0 {
                spec_reason_code(reason)
            } else {
                old(self).reason
            }),
    {
        if self.reason == 0 {
            self.reason = reason.code();
        }
        self.failed = true;
    }

    /// Accounts for one transmitted byte: a failed transmission marks the console
    /// failed with a transmit timeout.
    pub fn note_write(&mut self, ok: bool)
        ensures
            ok ==> *final(self) == *old(self),
            !ok ==> final(self).failed && final(self).reason == (if old(self).reason == 0 {
                2
            } else {
                old(self).reason
            }),
    {
        if !ok {
            self.mark_failed(FailureReason::TxTimeout);
        }
    }
}

/// The bytes put on the wire for `s`: each line feed preceded by a carriage return.
pub open spec fn crlf(s: Seq<u8>) -> Seq<u8>
    decreases s.len(),
{
    if s.len() == 0 {
        Seq::empty()
    } else {
        crlf(s.drop_last()) + (if s.last() == 10 {
            seq![13u8, 10u8]
        } else {
            seq![s.last()]
        })
    }
}

/// The byte stream a write of `bytes` transmits.
pub fn transmit_bytes(bytes: &[u8]) -> (r: Vec<u8>)
    ensures
        r@ == crlf(bytes@),
{
    let mut out: Vec<u8> = Vec::new();
    let mut i: usize = 0;
    while i < bytes.len()
        invariant
            i <= bytes@.len(),
            out@ == crlf(bytes@.take(i as int)),
        decreases bytes@.len() - i,
    {
        assert(bytes@.take(i + 1).drop_last() == bytes@.take(i as int));
        if bytes[i] == 10 {
            out.push(13);
        }
        out.push(bytes[i]);
        i = i + 1;
    }
    assert(bytes@.take(i as int) == bytes@);
    out
}


/// The line the console writes to and reads from.
pub trait SerialLine {
    fn write_byte(&mut self, byte: u8) -> bool;

    fn read_byte(&mut self) -> Option<u8>;
}

/// The console on a serial line, which stops for good at its first failure.
#[derive(Clone, Copy, Debug, PartialEq, Eq, Structural)]
pub struct Serial {
    pub status: SerialStatus,
}

impl Serial {
    pub fn new() -> (r: Self)
        ensures
            r.status == (SerialStatus { failed: false, reason: 0 }),
    {
        Serial { status: SerialStatus::new() }
    }

    /// Sends one byte unless the console has failed; a byte the line refuses fails it
    /// with a transmit timeout.
    fn write_byte<L: SerialLine>(&mut self, line: &mut L, byte: u8) -> (r: bool)
        ensures
            old(self).status.failed ==> !r && *final(self) == *old(self),
            r ==> *final(self) == *old(self),
            !r ==> final(self).status.failed,
            final(self).status.reason == (if !r && !old(self).status.failed && old(self).status.reason == 0 {
                2
            } else {
                old(self).status.reason
            }),
    {
        if self.status.failed {
            return false;
        }
        let ok = line.write_byte(byte);
        self.status.note_write(ok);
        ok
    }

    /// Writes `bytes` with each line feed preceded by a carriage return (see `crlf`),
    /// stopping at the first byte the line refuses. False when the console has failed, now
    /// or before.
    pub fn write_bytes<L: SerialLine>(&mut self, line: &mut L, bytes: &[u8]) -> (r: bool)
        ensures
            old(self).status.failed ==> !r && *final(self) == *old(self),
            r ==> *final(self) == *old(self),
            !r ==> final(self).status.failed,
            !r && bytes@.len() > 0 && !old(self).status.failed ==> final(self).status.reason == (if old(self).status.reason == 0 {
                2
            } else {
                old(self).status.reason
            }),
            bytes@.len() == 0 ==> r == !old(self).status.failed && *final(self) == *old(self),
    {
        if self.status.failed {
            return false;
        }
        let mut i: usize = 0;
        while i < bytes.len()
            invariant
                i <= bytes@.len(),
                *self == *old(self),
                !self.status.failed,
            decreases bytes@.len() - i,
        {
            let byte = bytes[i];
            if byte == 10 && !self.write_byte(line, 13) {
                return false;
            }
            if !self.write_byte(line, byte) {
                return false;
            }
            i = i + 1;
        }
        true
    }

    /// Writes the bytes of `s` as `write_bytes` does.
    pub fn write_str<L: SerialLine>(&mut self, line: &mut L, s: &str) -> (r: bool)
        ensures
            old(self).status.failed ==> !r && *final(self) == *old(self),
            r ==> *final(self) == *old(self),
            !r ==> final(self).status.failed,
    {
        self.write_bytes(line, s.as_bytes())
    }

    /// A received byte, unless the console has failed.
    pub fn read<L: SerialLine>(&self, line: &mut L) -> (r: Option<u8>)
        ensures
            self.status.failed ==> r is None,
    {
        if self.status.failed {
            return None;
        }
        line.read_byte()
    }
}

/// Checks the reason codes and names.
pub fn contract_self_check() {
    let none = failure_reason_code(0);
    assert(none is None);
    let init = failure_reason_code(FailureReason::Init.code());
    assert(init == Some(FailureReason::Init));
    let timeout = failure_reason_code(FailureReason::TxTimeout.code());
    assert(timeout == Some(FailureReason::TxTimeout));
    let name = FailureReason::Init.name();
    assert(name == "init");
    let name = FailureReason::TxTimeout.name();
    assert(name == "tx-timeout");
}

} // verus!
