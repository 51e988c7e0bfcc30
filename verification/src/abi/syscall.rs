use vstd::prelude::*;
use crate::capability::{CapabilitySet, CLOCK, LOG_WRITE};
use crate::boot::Architecture;

verus! {

/// The syscall number that activates the universal ABI.
pub const SCLA_NUMBER: u64 = 0x5c1a;
/// The magic value the activating call carries.
pub const SCLA_MAGIC: u64 = 0x424f415f53434c41;
/// Bytes each output ring keeps.
pub const IO_RING: usize = 256;
pub const ERROR_DENIED: u64 = 1;
pub const ERROR_NO_INPUT: u64 = 11;
pub const ERROR_FAULT: u64 = 14;
pub const ERROR_INVALID: u64 = 22;
pub const ERROR_UNSUPPORTED: u64 = 38;

#[derive(Clone, Copy, Debug, PartialEq, Eq, Structural)]
pub enum UniversalOp {
    Activate,
    Exit,
    Read,
    Write,
    Open,
    Close,
    MapRegion,
    Unmap,
    Clock,
    Spawn,
}

#[derive(Clone, Copy, Debug)]
pub struct UniversalCall {
    pub op: UniversalOp,
    pub args: [u64; 6],
}

#[derive(Clone, Copy, Debug, PartialEq, Eq, Structural)]
pub struct Return {
    pub value: u64,
    pub error: u64,
}

#[derive(Clone, Copy, Debug, PartialEq, Eq, Structural)]
pub enum IoTarget {
    Kernel,
    User,
    Serial,
}

impl IoTarget {
    pub fn name(self) -> (r: &'static str)
        ensures
            r == (match self {
                IoTarget::Kernel => "kernel",
                IoTarget::User => "user",
                IoTarget::Serial => "serial",
            }),
    {
        match self {
            IoTarget::Kernel => "kernel",
            IoTarget::User => "user",
            IoTarget::Serial => "serial",
        }
    }
}

/// Where a process's standard streams go.
#[derive(Clone, Copy, Debug, PartialEq, Eq, Structural)]
pub struct ProcessIo {
    pub stdin: IoTarget,
    pub stdout: IoTarget,
    pub stderr: IoTarget,
}

impl ProcessIo {
    pub fn kernel() -> (r: Self)
        ensures
            r == (ProcessIo { stdin: IoTarget::Kernel, stdout: IoTarget::Kernel, stderr: IoTarget::Kernel }),
    {
        ProcessIo { stdin: IoTarget::Kernel, stdout: IoTarget::Kernel, stderr: IoTarget::Kernel }
    }

    pub fn session(target: IoTarget) -> (r: Self)
        ensures
            r == (ProcessIo { stdin: target, stdout: target, stderr: target }),
    {
        ProcessIo { stdin: target, stdout: target, stderr: target }
    }
}

/// The streams that were in force before `enter_io`, to put back on leaving.
#[derive(Clone, Copy, Debug, PartialEq, Eq, Structural)]
pub struct IoGuard(pub ProcessIo);

#[derive(Clone, Copy, Debug, PartialEq, Eq, Structural)]
pub struct IoStatus {
    pub user_stdout: usize,
    pub user_stderr: usize,
    pub serial_stdout: usize,
    pub serial_stderr: usize,
}

/// An output ring: the last `IO_RING` bytes written to a stream and how many were
/// written in all.
pub struct Ring {
    bytes: Vec<u8>,
    head: usize,
    log: Ghost<Seq<u8>>,
}

/// The last `n` bytes of `log`.
pub open spec fn last_bytes(log: Seq<u8>, n: int) -> Seq<u8> {
    log.subrange(log.len() - n, log.len() as int)
}

impl Ring {
    pub closed spec fn wf(&self) -> bool {
        &&& self.bytes@.len() == IO_RING
        &&& self.log@.len() == self.head
        &&& forall|i: int|
            0 <= i < self.head && self.head - IO_RING <= i ==> #[trigger] self.bytes@[i % (IO_RING as int)]
                == self.log@[i]
    }

    /// Every byte written, oldest first.
    pub closed spec fn view(&self) -> Seq<u8> {
        self.log@
    }

    pub fn new() -> (r: Self)
        ensures
            r.wf(),
            r@ == Seq::<u8>::empty(),
    {
        let mut bytes: Vec<u8> = Vec::new();
        let mut i: usize = 0;
        while i < IO_RING
            invariant
                i <= IO_RING,
                bytes@.len() == i,
            decreases IO_RING - i,
        {
            bytes.push(0);
            i = i + 1;
        }
        Ring { bytes, head: 0, log: Ghost(Seq::empty()) }
    }

    /// Appends a byte; a ring that has counted `usize::MAX` bytes keeps what it has.
    pub fn push(&mut self, byte: u8)
        requires
            old(self).wf(),
        ensures
            final(self).wf(),
            final(self)@ == (if old(self)@.len() < usize::MAX {
                old(self)@.push(byte)
            } else {
                old(self)@
            }),
    {
        if self.head == usize::MAX {
            return;
        }
        let slot = self.head % IO_RING;
        self.bytes.set(slot, byte);
        let ghost old_log = self.log@;
        let ghost old_head = self.head;
        self.head = self.head + 1;
        self.log = Ghost(old_log.push(byte));
        assert forall|i: int|
            0 <= i < self.head && self.head - IO_RING <= i implies #[trigger] self.bytes@[i % (
            IO_RING as int)] == self.log@[i] by {
            if i < old_head {
                assert(i % 256 != old_head % 256) by (nonlinear_arith)
                    requires
                        old_head + 1 - 256 <= i < old_head,
                ;
            }
        }
    }

    pub fn written(&self) -> (r: usize)
        requires
            self.wf(),
        ensures
            r == self@.len(),
    {
        self.head
    }

    /// The most recent bytes, as many as the ring keeps and `out` holds, into the
    /// front of `out`; returns how many.
    pub fn tail(&self, out: &mut Vec<u8>) -> (r: usize)
        requires
            self.wf(),
        ensures
            r == vstd::math::min(vstd::math::min(self@.len() as int, IO_RING as int), old(out)@.len() as int),
            final(out)@.len() == old(out)@.len(),
            final(out)@.take(r as int) == last_bytes(self@, r as int),
            final(out)@.skip(r as int) == old(out)@.skip(r as int),
    {
        let mut len = if self.head < IO_RING {
            self.head
        } else {
            IO_RING
        };
        if out.len() < len {
            len = out.len();
        }
        let start = self.head - len;
        let mut i: usize = 0;
        while i < len
            invariant
                self.wf(),
                i <= len,
                len <= IO_RING,
                len <= self.head,
                start == self.head - len,
                len <= out@.len(),
                out@.len() == old(out)@.len(),
                forall|k: int| 0 <= k < i ==> out@[k] == self@[start + k],
                forall|k: int| i <= k < out@.len() ==> out@[k] == old(out)@[k],
            decreases len - i,
        {
            let index = (start + i) % IO_RING;
            assert(self.bytes@[(start + i) % (IO_RING as int)] == self.log@[start + i]);
            out.set(i, self.bytes[index]);
            i = i + 1;
        }
        assert(out@.take(len as int) =~= last_bytes(self@, len as int));
        assert(out@.skip(len as int) =~= old(out)@.skip(len as int));
        len
    }

    /// The bytes from `cursor` on that the ring still keeps, as many as `out` holds,
    /// into the front of `out`; the cursor moves past them. A cursor left behind
    /// by more than the ring keeps skips to the oldest byte kept.
    pub fn read_from(&self, cursor: &mut usize, out: &mut Vec<u8>) -> (r: usize)
        requires
            self.wf(),
        ensures
            read_outcome(self@, *old(cursor), old(out)@, r, *final(cursor), final(out)@),
    {
        let head = self.head;
        let oldest = if head < IO_RING {
            0
        } else {
            head - IO_RING
        };
        let start = if *cursor > oldest {
            *cursor
        } else {
            oldest
        };
        let mut len = if head > start {
            head - start
        } else {
            0
        };
        if out.len() < len {
            len = out.len();
        }
        let mut i: usize = 0;
        while i < len
            invariant
                self.wf(),
                i <= len,
                head == self.head,
                oldest <= start,
                oldest == (if head < IO_RING {
                    0
                } else {
                    head - IO_RING
                }),
                len <= out@.len(),
                len == 0 || start + len <= head,
                out@.len() == old(out)@.len(),
                forall|k: int| 0 <= k < i ==> out@[k] == self@[start + k],
                forall|k: int| i <= k < out@.len() ==> out@[k] == old(out)@[k],
            decreases len - i,
        {
            let index = (start + i) % IO_RING;
            assert(self.bytes@[(start + i) % (IO_RING as int)] == self.log@[start + i]);
            out.set(i, self.bytes[index]);
            i = i + 1;
        }
        if len > 0 {
            assert(out@.take(len as int) =~= self@.subrange(start as int, start + len));
        }
        assert(out@.skip(len as int) =~= old(out)@.skip(len as int));
        *cursor = start + len;
        len
    }
}

/// Where a read from `cursor` starts in a ring that has recorded `log`: the cursor, or
/// the oldest byte the ring still keeps when the cursor has fallen behind it.
pub open spec fn read_start(log: Seq<u8>, cursor: usize) -> int {
    let oldest = if log.len() < IO_RING {
        0
    } else {
        log.len() - IO_RING
    };
    if cursor > oldest {
        cursor as int
    } else {
        oldest
    }
}

/// What a read of a ring that recorded `log` does from `cursor` into `out`: as many
/// bytes as are kept from the start on and `out` holds, copied to the front of `out`,
/// with the cursor moved past them.
pub open spec fn read_outcome(log: Seq<u8>, cursor: usize, out: Seq<u8>, r: usize, new_cursor: usize, new_out: Seq<
    u8,
>) -> bool {
    let start = read_start(log, cursor);
    let available = if log.len() > start {
        log.len() - start
    } else {
        0
    };
    &&& r == vstd::math::min(available, out.len() as int)
    &&& new_cursor == start + r
    &&& new_out.len() == out.len()
    &&& r > 0 ==> new_out.take(r as int) == log.subrange(start, start + r)
    &&& new_out.skip(r as int) == out.skip(r as int)
}

/// The streams in force and the output recorded for the user console and serial.
pub struct IoState {
    pub io: ProcessIo,
    pub user_stdout: Ring,
    pub user_stderr: Ring,
    pub serial_stdout: Ring,
    pub serial_stderr: Ring,
}

/// The ring that records output to `target` on descriptor `fd`, if any.
pub enum RingName {
    UserStdout,
    UserStderr,
    SerialStdout,
    SerialStderr,
}

pub open spec fn ring_for(target: IoTarget, fd: u64) -> Option<RingName> {
    match target {
        IoTarget::User => Some(if fd == 2 { RingName::UserStderr } else { RingName::UserStdout }),
        IoTarget::Serial => Some(if fd == 2 { RingName::SerialStderr } else { RingName::SerialStdout }),
        IoTarget::Kernel => None,
    }
}

/// A byte with the stream it goes to.
#[derive(Clone, Copy, Debug, PartialEq, Eq, Structural)]
pub struct Output {
    pub target: IoTarget,
    pub fd: u64,
    pub byte: u8,
}

/// Printable ASCII, space and line feed can be written.
#[verifier::allow_in_spec]
pub fn writable_byte(byte: u8) -> bool
    returns
        (0x21 <= byte <= 0x7e) || byte == 32 || byte == 10,
{
    (0x21 <= byte && byte <= 0x7e) || byte == 32 || byte == 10
}

/// The target a stored stream code names.
pub fn decode_target(value: u8) -> (r: IoTarget)
    ensures
        r == (if value == 1 {
            IoTarget::User
        } else if value == 2 {
            IoTarget::Serial
        } else {
            IoTarget::Kernel
        }),
{
    match value {
        1 => IoTarget::User,
        2 => IoTarget::Serial,
        _ => IoTarget::Kernel,
    }
}

/// A key as a byte for a reading process: characters, Enter as line feed,
/// Backspace as 8.
#[derive(Clone, Copy, Debug, PartialEq, Eq, Structural)]
pub enum Key {
    Char(u8),
    Enter,
    Backspace,
    Other,
}

pub fn key_byte(key: Key) -> (r: Option<u8>)
    ensures
        r == (match key {
            Key::Char(byte) => Some(byte),
            Key::Enter => Some(10u8),
            Key::Backspace => Some(8u8),
            Key::Other => None,
        }),
{
    match key {
        Key::Char(byte) => Some(byte),
        Key::Enter => Some(10),
        Key::Backspace => Some(8),
        Key::Other => None,
    }
}

/// The trap is the universal ABI's activation.
pub fn is_scla(number: u64, magic: u64) -> (r: bool)
    ensures
        r == (number == SCLA_NUMBER && magic == SCLA_MAGIC),
{
    number == SCLA_NUMBER && magic == SCLA_MAGIC
}

pub fn native_registers(architecture: Architecture) -> (r: &'static str)
    ensures
        architecture == Architecture::X86_64 ==> r == "x86_64: nr/op=rax args=rdi,rsi,rdx,r10,r8,r9 ret=rax",
        architecture != Architecture::X86_64 ==> r == "aarch64: nr/op=x8 args=x0..x5 ret=x0",
{
    match architecture {
        Architecture::X86_64 => "x86_64: nr/op=rax args=rdi,rsi,rdx,r10,r8,r9 ret=rax",
        _ => "aarch64: nr/op=x8 args=x0..x5 ret=x0",
    }
}

pub fn activation_registers(architecture: Architecture) -> (r: &'static str)
    ensures
        architecture == Architecture::X86_64 ==> r == "SCLA trap: syscall nr=0x5c1a magic=rdi",
        architecture != Architecture::X86_64 ==> r == "SCLA trap: svc #0 nr=x8=0x5c1a magic=x0",
{
    match architecture {
        Architecture::X86_64 => "SCLA trap: syscall nr=0x5c1a magic=rdi",
        _ => "SCLA trap: svc #0 nr=x8=0x5c1a magic=x0",
    }
}

pub fn universal_registers(architecture: Architecture) -> (r: &'static str)
    ensures
        architecture == Architecture::X86_64 ==> r == "Norx universal: op=rax args=rdi,rsi,rdx,r10,r8,r9",
        architecture != Architecture::X86_64 ==> r == "Norx universal: op=x8 args=x0..x5",
{
    match architecture {
        Architecture::X86_64 => "Norx universal: op=rax args=rdi,rsi,rdx,r10,r8,r9",
        _ => "Norx universal: op=x8 args=x0..x5",
    }
}


/// The writable bytes of `s`, in order.
pub open spec fn kept(s: Seq<u8>) -> Seq<u8>
    decreases s.len(),
{
    if s.len() == 0 {
        Seq::empty()
    } else if writable_byte(s.last()) {
        kept(s.drop_last()).push(s.last())
    } else {
        kept(s.drop_last())
    }
}

proof fn lemma_kept_len(s: Seq<u8>)
    ensures
        kept(s).len() <= s.len(),
    decreases s.len(),
{
    if s.len() > 0 {
        lemma_kept_len(s.drop_last());
    }
}

/// Every byte of `s` is writable.
pub open spec fn all_writable(s: Seq<u8>) -> bool {
    forall|i: int| 0 <= i < s.len() ==> writable_byte(#[trigger] s[i])
}

/// The stream a write to descriptor `fd` goes to.
pub open spec fn write_target_of(io: ProcessIo, fd: u64) -> IoTarget {
    if fd == 2 {
        io.stderr
    } else {
        io.stdout
    }
}

/// `bytes` as outputs to descriptor `fd` of `target`.
pub open spec fn outputs(target: IoTarget, fd: u64, bytes: Seq<u8>) -> Seq<Output> {
    Seq::new(bytes.len(), |i: int| Output { target, fd, byte: bytes[i] })
}

/// The ring contents after `bytes` are recorded for `fd` on `target`.
pub open spec fn recorded(rings: (Seq<u8>, Seq<u8>, Seq<u8>, Seq<u8>), target: IoTarget, fd: u64, bytes: Seq<u8>) -> (
    Seq<u8>,
    Seq<u8>,
    Seq<u8>,
    Seq<u8>,
) {
    match target {
        IoTarget::User => if fd == 2 {
            (rings.0, rings.1 + bytes, rings.2, rings.3)
        } else {
            (rings.0 + bytes, rings.1, rings.2, rings.3)
        },
        IoTarget::Serial => if fd == 2 {
            (rings.0, rings.1, rings.2, rings.3 + bytes)
        } else {
            (rings.0, rings.1, rings.2 + bytes, rings.3)
        },
        IoTarget::Kernel => rings,
    }
}

/// Recording a write never takes bytes away: every stream keeps what it had in front,
/// so no count `io_status` reports ever decreases, and together the streams grow by at
/// most the bytes written.
pub proof fn law_recorded_only_appends(
    rings: (Seq<u8>, Seq<u8>, Seq<u8>, Seq<u8>),
    target: IoTarget,
    fd: u64,
    bytes: Seq<u8>,
)
    ensures
        ({
            let after = recorded(rings, target, fd, bytes);
            &&& after.0.len() >= rings.0.len() && after.0.subrange(0, rings.0.len() as int) == rings.0
            &&& after.1.len() >= rings.1.len() && after.1.subrange(0, rings.1.len() as int) == rings.1
            &&& after.2.len() >= rings.2.len() && after.2.subrange(0, rings.2.len() as int) == rings.2
            &&& after.3.len() >= rings.3.len() && after.3.subrange(0, rings.3.len() as int) == rings.3
            &&& after.0.len() + after.1.len() + after.2.len() + after.3.len() <= rings.0.len() + rings.1.len()
                + rings.2.len() + rings.3.len() + bytes.len()
        }),
{
    let after = recorded(rings, target, fd, bytes);
    assert(after.0.subrange(0, rings.0.len() as int) =~= rings.0);
    assert(after.1.subrange(0, rings.1.len() as int) =~= rings.1);
    assert(after.2.subrange(0, rings.2.len() as int) =~= rings.2);
    assert(after.3.subrange(0, rings.3.len() as int) =~= rings.3);
}

/// Activation always answers the handshake: whatever the caller's capabilities,
/// arguments and I/O state, the answer to `Activate` is the handshake's magic value
/// (which `is_scla` accepts with the handshake's call number), with no error.
pub proof fn law_activation_handshake(
    io: ProcessIo,
    caps: CapabilitySet,
    args: Seq<u64>,
    ticks: u64,
    input: Option<u8>,
    user: Option<Seq<u8>>,
)
    ensures
        ({
            let answer = spec_dispatch(io, caps, UniversalOp::Activate, args, ticks, input, user);
            &&& answer.error == 0
            &&& answer.value == SCLA_MAGIC
        }),
{
}

/// What `dispatch_with` answers, given the clock, the byte standard input has, and
/// the bytes of the caller's buffer (`None` where it could not be read).
pub open spec fn spec_dispatch(
    io: ProcessIo,
    caps: CapabilitySet,
    op: UniversalOp,
    args: Seq<u64>,
    ticks: u64,
    input: Option<u8>,
    user: Option<Seq<u8>>,
) -> Return {
    match op {
        UniversalOp::Activate => Return { value: SCLA_MAGIC, error: 0 },
        UniversalOp::Exit => Return { value: args[0], error: 0 },
        UniversalOp::Clock => if crate::capability::has(caps, CLOCK) {
            Return { value: ticks, error: 0 }
        } else {
            Return { value: 0, error: ERROR_DENIED }
        },
        UniversalOp::Read => match (if io.stdin == IoTarget::Kernel { None } else { input }) {
            Some(byte) => Return { value: byte as u64, error: 0 },
            None => Return { value: 0, error: ERROR_NO_INPUT },
        },
        UniversalOp::Write => if !crate::capability::has(caps, LOG_WRITE) {
            Return { value: 0, error: ERROR_DENIED }
        } else if args[1] == 0 {
            if writable_byte(args[0] as u8) {
                Return { value: 1, error: 0 }
            } else {
                Return { value: 0, error: ERROR_INVALID }
            }
        } else {
            match user {
                None => Return { value: 0, error: ERROR_FAULT },
                Some(bytes) => Return {
                    value: kept(bytes).len() as u64,
                    error: if all_writable(bytes) {
                        0
                    } else {
                        ERROR_INVALID
                    },
                },
            }
        },
        _ => Return { value: 0, error: ERROR_UNSUPPORTED },
    }
}

/// The bytes a call writes.
pub open spec fn spec_written(caps: CapabilitySet, op: UniversalOp, args: Seq<u64>, user: Option<Seq<u8>>) -> Seq<
    u8,
> {
    if op != UniversalOp::Write || !crate::capability::has(caps, LOG_WRITE) {
        Seq::empty()
    } else if args[1] == 0 {
        if writable_byte(args[0] as u8) {
            seq![args[0] as u8]
        } else {
            Seq::empty()
        }
    } else {
        match user {
            None => Seq::empty(),
            Some(bytes) => kept(bytes),
        }
    }
}

proof fn lemma_kept_all_writable(s: Seq<u8>)
    ensures
        all_writable(s) <==> kept(s).len() == s.len(),
        all_writable(s) ==> kept(s) == s,
    decreases s.len(),
{
    if s.len() > 0 {
        let d = s.drop_last();
        lemma_kept_all_writable(d);
        lemma_kept_len(d);
        assert forall|i: int| 0 <= i < d.len() implies d[i] == s[i] by {}
        if all_writable(s) {
            assert(all_writable(d)) by {
                assert forall|i: int| 0 <= i < d.len() implies writable_byte(#[trigger] d[i]) by {
                    assert(writable_byte(s[i]));
                }
            }
            assert(writable_byte(s[s.len() - 1]));
            assert(kept(s) == s);
        } else {
            let j = choose|j: int| 0 <= j < s.len() && !writable_byte(#[trigger] s[j]);
            if j == s.len() - 1 {
                assert(kept(s).len() < s.len());
            } else {
                assert(!writable_byte(d[j]));
                assert(!all_writable(d));
                assert(kept(d).len() < d.len());
            }
        }
    } else {
        assert(kept(s) =~= s);
    }
}

proof fn lemma_nothing_written(rings: (Seq<u8>, Seq<u8>, Seq<u8>, Seq<u8>), target: IoTarget, fd: u64)
    ensures
        outputs(target, fd, Seq::<u8>::empty()) == Seq::<Output>::empty(),
        recorded(rings, target, fd, Seq::<u8>::empty()) == rings,
{
    assert(outputs(target, fd, Seq::<u8>::empty()) =~= Seq::<Output>::empty());
    assert(rings.0 + Seq::<u8>::empty() =~= rings.0);
    assert(rings.1 + Seq::<u8>::empty() =~= rings.1);
    assert(rings.2 + Seq::<u8>::empty() =~= rings.2);
    assert(rings.3 + Seq::<u8>::empty() =~= rings.3);
}

impl IoState {
    pub open spec fn wf(&self) -> bool {
        self.user_stdout.wf() && self.user_stderr.wf() && self.serial_stdout.wf()
            && self.serial_stderr.wf()
    }

    pub open spec fn rings(&self) -> (Seq<u8>, Seq<u8>, Seq<u8>, Seq<u8>) {
        (self.user_stdout@, self.user_stderr@, self.serial_stdout@, self.serial_stderr@)
    }

    /// Kernel streams and empty rings.
    pub fn new() -> (r: Self)
        ensures
            r.wf(),
            r.io == ProcessIo::kernel_spec(),
            r.rings() == (Seq::<u8>::empty(), Seq::<u8>::empty(), Seq::<u8>::empty(), Seq::<u8>::empty()),
    {
        IoState {
            io: ProcessIo::kernel(),
            user_stdout: Ring::new(),
            user_stderr: Ring::new(),
            serial_stdout: Ring::new(),
            serial_stderr: Ring::new(),
        }
    }

    /// Switches to `io`; the guard holds the streams to restore.
    pub fn enter_io(&mut self, io: ProcessIo) -> (r: IoGuard)
        ensures
            final(self).io == io,
            r.0 == old(self).io,
            final(self).rings() == old(self).rings(),
            final(self).wf() == old(self).wf(),
    {
        let previous = self.io;
        self.io = io;
        IoGuard(previous)
    }

    /// Puts back the streams `guard` saved.
    pub fn leave_io(&mut self, guard: IoGuard)
        ensures
            final(self).io == guard.0,
            final(self).rings() == old(self).rings(),
            final(self).wf() == old(self).wf(),
    {
        self.io = guard.0;
    }

    pub fn write_target(&self, fd: u64) -> (r: IoTarget)
        ensures
            r == write_target_of(self.io, fd),
    {
        if fd == 2 {
            self.io.stderr
        } else {
            self.io.stdout
        }
    }

    pub fn read_target(&self) -> (r: IoTarget)
        ensures
            r == self.io.stdin,
    {
        self.io.stdin
    }

    /// Records an output byte in the ring of its stream.
    fn record_output(&mut self, target: IoTarget, fd: u64, byte: u8)
        requires
            old(self).wf(),
            old(self).user_stdout@.len() < usize::MAX && old(self).user_stderr@.len() < usize::MAX
                && old(self).serial_stdout@.len() < usize::MAX && old(self).serial_stderr@.len()
                < usize::MAX,
        ensures
            final(self).wf(),
            final(self).io == old(self).io,
            final(self).rings() == recorded(old(self).rings(), target, fd, seq![byte]),
    {
        match target {
            IoTarget::User => if fd == 2 {
                self.user_stderr.push(byte);
            } else {
                self.user_stdout.push(byte);
            },
            IoTarget::Serial => if fd == 2 {
                self.serial_stderr.push(byte);
            } else {
                self.serial_stdout.push(byte);
            },
            IoTarget::Kernel => {},
        }
    }

    pub fn io_status(&self) -> (r: IoStatus)
        requires
            self.wf(),
        ensures
            r == (IoStatus {
                user_stdout: self.user_stdout@.len() as usize,
                user_stderr: self.user_stderr@.len() as usize,
                serial_stdout: self.serial_stdout@.len() as usize,
                serial_stderr: self.serial_stderr@.len() as usize,
            }),
            self.user_stdout@.len() <= usize::MAX && self.user_stderr@.len() <= usize::MAX
                && self.serial_stdout@.len() <= usize::MAX && self.serial_stderr@.len() <= usize::MAX,
    {
        IoStatus {
            user_stdout: self.user_stdout.written(),
            user_stderr: self.user_stderr.written(),
            serial_stdout: self.serial_stdout.written(),
            serial_stderr: self.serial_stderr.written(),
        }
    }

    fn ring(&self, target: IoTarget, fd: u64) -> (r: Option<&Ring>)
        ensures
            target == IoTarget::Kernel ==> r is None,
            target == IoTarget::User && fd == 2 ==> r == Some(&self.user_stderr),
            target == IoTarget::User && fd != 2 ==> r == Some(&self.user_stdout),
            target == IoTarget::Serial && fd == 2 ==> r == Some(&self.serial_stderr),
            target == IoTarget::Serial && fd != 2 ==> r == Some(&self.serial_stdout),
    {
        match target {
            IoTarget::User => if fd == 2 {
                Some(&self.user_stderr)
            } else {
                Some(&self.user_stdout)
            },
            IoTarget::Serial => if fd == 2 {
                Some(&self.serial_stderr)
            } else {
                Some(&self.serial_stdout)
            },
            IoTarget::Kernel => None,
        }
    }

    /// The most recent output of a stream, into the front of `out`; the kernel
    /// console keeps none.
    pub fn io_tail(&self, target: IoTarget, fd: u64, out: &mut Vec<u8>) -> (r: usize)
        requires
            self.wf(),
        ensures
            target == IoTarget::Kernel ==> r == 0 && final(out)@ == old(out)@,
            final(out)@.len() == old(out)@.len(),
            target != IoTarget::Kernel ==> {
                let log = if target == IoTarget::User {
                    if fd == 2 { self.user_stderr@ } else { self.user_stdout@ }
                } else {
                    if fd == 2 { self.serial_stderr@ } else { self.serial_stdout@ }
                };
                &&& r == vstd::math::min(vstd::math::min(log.len() as int, IO_RING as int), old(out)@.len() as int)
                &&& final(out)@.take(r as int) == last_bytes(log, r as int)
                &&& final(out)@.skip(r as int) == old(out)@.skip(r as int)
            },
    {
        match self.ring(target, fd) {
            None => 0,
            Some(ring) => ring.tail(out),
        }
    }

    /// Output of a stream from `cursor` on, into the front of `out`.
    pub fn io_read(&self, target: IoTarget, fd: u64, cursor: &mut usize, out: &mut Vec<u8>) -> (r: usize)
        requires
            self.wf(),
        ensures
            target == IoTarget::Kernel ==> r == 0 && final(out)@ == old(out)@ && *final(cursor)
                == *old(cursor),
            target != IoTarget::Kernel ==> read_outcome(
                if target == IoTarget::User {
                    if fd == 2 { self.user_stderr@ } else { self.user_stdout@ }
                } else {
                    if fd == 2 { self.serial_stderr@ } else { self.serial_stdout@ }
                },
                *old(cursor),
                old(out)@,
                r,
                *final(cursor),
                final(out)@,
            ),
    {
        match self.ring(target, fd) {
            None => 0,
            Some(ring) => ring.read_from(cursor, out),
        }
    }

    /// Writes `bytes` to descriptor `fd`: each goes to the stream's target and is
    /// recorded in its ring.
    fn write_all(&mut self, fd: u64, bytes: &[u8], effects: &mut Vec<Output>)
        requires
            old(self).wf(),
            old(self).user_stdout@.len() + bytes@.len() < usize::MAX && old(self).user_stderr@.len()
                + bytes@.len() < usize::MAX && old(self).serial_stdout@.len() + bytes@.len()
                < usize::MAX && old(self).serial_stderr@.len() + bytes@.len() < usize::MAX,
        ensures
            final(self).wf(),
            final(self).io == old(self).io,
            final(self).rings() == recorded(old(self).rings(), write_target_of(old(self).io, fd), fd, bytes@),
            final(effects)@ == old(effects)@ + outputs(write_target_of(old(self).io, fd), fd, bytes@),
    {
        let target = self.write_target(fd);
        let mut i: usize = 0;
        while i < bytes.len()
            invariant
                self.wf(),
                self.io == old(self).io,
                target == write_target_of(old(self).io, fd),
                i <= bytes@.len(),
                old(self).user_stdout@.len() + bytes@.len() < usize::MAX && old(self).user_stderr@.len()
                    + bytes@.len() < usize::MAX && old(self).serial_stdout@.len() + bytes@.len()
                    < usize::MAX && old(self).serial_stderr@.len() + bytes@.len() < usize::MAX,
                self.rings() == recorded(old(self).rings(), target, fd, bytes@.take(i as int)),
                effects@ == old(effects)@ + outputs(target, fd, bytes@.take(i as int)),
            decreases bytes@.len() - i,
        {
            self.record_output(target, fd, bytes[i]);
            effects.push(Output { target, fd, byte: bytes[i] });
            proof {
                assert(bytes@.take(i + 1) == bytes@.take(i as int).push(bytes@[i as int]));
                assert(outputs(target, fd, bytes@.take(i + 1)) == outputs(target, fd, bytes@.take(i as int)).push(
                    Output { target, fd, byte: bytes@[i as int] },
                ));
            }
            i = i + 1;
        }
        assert(bytes@.take(i as int) == bytes@);
    }
}

impl ProcessIo {
    pub open spec fn kernel_spec() -> ProcessIo {
        ProcessIo { stdin: IoTarget::Kernel, stdout: IoTarget::Kernel, stderr: IoTarget::Kernel }
    }
}

/// The writable bytes of `bytes`.
pub fn keep_writable(bytes: &[u8]) -> (r: Vec<u8>)
    ensures
        r@ == kept(bytes@),
{
    let mut out: Vec<u8> = Vec::new();
    let mut i: usize = 0;
    while i < bytes.len()
        invariant
            i <= bytes@.len(),
            out@ == kept(bytes@.take(i as int)),
        decreases bytes@.len() - i,
    {
        assert(bytes@.take(i + 1).drop_last() == bytes@.take(i as int));
        if writable_byte(bytes[i]) {
            out.push(bytes[i]);
        }
        i = i + 1;
    }
    assert(bytes@.take(i as int) == bytes@);
    out
}

/// Carries out a universal call with the capabilities `caps`: the answer, and the
/// bytes written with their streams, which are also recorded in the rings. The clock
/// reading `ticks`, the byte `input` that standard input has, and the caller's
/// buffer `user` (`None` where it could not be read) come from the platform.
pub fn dispatch_with(
    io: &mut IoState,
    caps: CapabilitySet,
    call: UniversalCall,
    ticks: u64,
    input: Option<u8>,
    user: Option<&[u8]>,
) -> (r: (Return, Vec<Output>))
    requires
        old(io).wf(),
        ({
            let n: int = match user {
                Some(bytes) => bytes@.len() as int + 1,
                None => 1,
            };
            &&& old(io).user_stdout@.len() + n < usize::MAX
            &&& old(io).user_stderr@.len() + n < usize::MAX
            &&& old(io).serial_stdout@.len() + n < usize::MAX
            &&& old(io).serial_stderr@.len() + n < usize::MAX
        }),
    ensures
        final(io).wf(),
        final(io).io == old(io).io,
        ({
            let user_seq: Option<Seq<u8>> = match user {
                Some(bytes) => Some(bytes@),
                None => None,
            };
            let written = spec_written(caps, call.op, call.args@, user_seq);
            let target = write_target_of(old(io).io, call.args[2]);
            &&& r.0 == spec_dispatch(old(io).io, caps, call.op, call.args@, ticks, input, user_seq)
            &&& r.1@ == outputs(target, call.args[2], written)
            &&& final(io).rings() == recorded(old(io).rings(), target, call.args[2], written)
        }),
{
    let ghost user_seq: Option<Seq<u8>> = match user {
        Some(bytes) => Some(bytes@),
        None => None,
    };
    let mut effects: Vec<Output> = Vec::new();
    proof {
        lemma_nothing_written(io.rings(), write_target_of(io.io, call.args[2]), call.args[2]);
    }
    match call.op {
        UniversalOp::Activate => (Return { value: SCLA_MAGIC, error: 0 }, effects),
        UniversalOp::Exit => (Return { value: call.args[0], error: 0 }, effects),
        UniversalOp::Clock => {
            if caps.contains(CapabilitySet::clock()) {
                (Return { value: ticks, error: 0 }, effects)
            } else {
                (Return { value: 0, error: ERROR_DENIED }, effects)
            }
        },
        UniversalOp::Read => {
            let byte = if io.read_target() == IoTarget::Kernel {
                None
            } else {
                input
            };
            match byte {
                Some(b) => (Return { value: b as u64, error: 0 }, effects),
                None => (Return { value: 0, error: ERROR_NO_INPUT }, effects),
            }
        },
        UniversalOp::Write => {
            if !caps.contains(CapabilitySet::log_write()) {
                return (Return { value: 0, error: ERROR_DENIED }, effects);
            }
            if call.args[1] == 0 {
                let byte = call.args[0] as u8;
                if writable_byte(byte) {
                    let one: [u8; 1] = [byte];
                    io.write_all(call.args[2], &one, &mut effects);
                    assert(one@ == seq![call.args[0] as u8]);
                    return (Return { value: 1, error: 0 }, effects);
                }
                return (Return { value: 0, error: ERROR_INVALID }, effects);
            }
            match user {
                None => (Return { value: 0, error: ERROR_FAULT }, effects),
                Some(bytes) => {
                    let keep = keep_writable(bytes);
                    proof {
                        lemma_kept_len(bytes@);
                        lemma_kept_all_writable(bytes@);
                    }
                    io.write_all(call.args[2], keep.as_slice(), &mut effects);
                    let written = keep.len() as u64;
                    if keep.len() == bytes.len() {
                        (Return { value: written, error: 0 }, effects)
                    } else {
                        (Return { value: written, error: ERROR_INVALID }, effects)
                    }
                },
            }
        },
        _ => (Return { value: 0, error: ERROR_UNSUPPORTED }, effects),
    }
}

/// Carries out a universal call with every capability.
pub fn dispatch(
    io: &mut IoState,
    call: UniversalCall,
    ticks: u64,
    input: Option<u8>,
    user: Option<&[u8]>,
) -> (r: (Return, Vec<Output>))
    requires
        old(io).wf(),
        ({
            let n: int = match user {
                Some(bytes) => bytes@.len() as int + 1,
                None => 1,
            };
            &&& old(io).user_stdout@.len() + n < usize::MAX
            &&& old(io).user_stderr@.len() + n < usize::MAX
            &&& old(io).serial_stdout@.len() + n < usize::MAX
            &&& old(io).serial_stderr@.len() + n < usize::MAX
        }),
    ensures
        final(io).wf(),
        final(io).io == old(io).io,
        ({
            let user_seq: Option<Seq<u8>> = match user {
                Some(bytes) => Some(bytes@),
                None => None,
            };
            let written = spec_written(CapabilitySet::spec_kernel(), call.op, call.args@, user_seq);
            let target = write_target_of(old(io).io, call.args[2]);
            &&& r.0 == spec_dispatch(old(io).io, CapabilitySet::spec_kernel(), call.op, call.args@, ticks, input, user_seq)
            &&& r.1@ == outputs(target, call.args[2], written)
            &&& final(io).rings() == recorded(old(io).rings(), target, call.args[2], written)
        }),
{
    dispatch_with(io, CapabilitySet::kernel(), call, ticks, input, user)
}

} // verus!
