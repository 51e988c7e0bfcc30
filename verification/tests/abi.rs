use lib::abi::syscall::{
    activation_registers, decode_target, dispatch, dispatch_with, is_scla, keep_writable, key_byte, native_registers,
    universal_registers, writable_byte, IoState, IoTarget, Key, Output, ProcessIo, Return, Ring, UniversalCall,
    UniversalOp, ERROR_DENIED, ERROR_FAULT, ERROR_INVALID, ERROR_NO_INPUT, ERROR_UNSUPPORTED, SCLA_MAGIC,
    SCLA_NUMBER,
};
use lib::boot::Architecture;
use lib::capability::CapabilitySet;

fn call(op: UniversalOp, args: [u64; 6]) -> UniversalCall {
    UniversalCall { op, args }
}

#[test]
fn abi_small_pieces() {
    assert!(is_scla(SCLA_NUMBER, SCLA_MAGIC));
    assert!(!is_scla(SCLA_NUMBER, 0));
    assert!(writable_byte(b'a') && writable_byte(b' ') && writable_byte(b'\n'));
    assert!(!writable_byte(0x7f) && !writable_byte(b'\t'));
    assert_eq!(keep_writable(b"a\tb\n"), b"ab\n".to_vec());
    assert_eq!(decode_target(1), IoTarget::User);
    assert_eq!(decode_target(2), IoTarget::Serial);
    assert_eq!(decode_target(9), IoTarget::Kernel);
    assert_eq!(key_byte(Key::Enter), Some(10));
    assert_eq!(key_byte(Key::Backspace), Some(8));
    assert_eq!(key_byte(Key::Char(b'q')), Some(b'q'));
    assert_eq!(key_byte(Key::Other), None);
    assert_eq!(IoTarget::Serial.name(), "serial");
    assert_eq!(native_registers(Architecture::X86_64), "x86_64: nr/op=rax args=rdi,rsi,rdx,r10,r8,r9 ret=rax");
    assert_eq!(activation_registers(Architecture::Aarch64), "SCLA trap: svc #0 nr=x8=0x5c1a magic=x0");
    assert_eq!(universal_registers(Architecture::X86_64), "Norx universal: op=rax args=rdi,rsi,rdx,r10,r8,r9");
}

#[test]
fn abi_dispatch_answers() {
    let mut io = IoState::new();
    assert_eq!(dispatch(&mut io, call(UniversalOp::Activate, [0; 6]), 0, None, None).0, Return { value: SCLA_MAGIC, error: 0 });
    assert_eq!(dispatch(&mut io, call(UniversalOp::Exit, [7, 0, 0, 0, 0, 0]), 0, None, None).0, Return { value: 7, error: 0 });
    assert_eq!(dispatch(&mut io, call(UniversalOp::Clock, [0; 6]), 1234, None, None).0, Return { value: 1234, error: 0 });
    assert_eq!(
        dispatch_with(&mut io, CapabilitySet::none(), call(UniversalOp::Clock, [0; 6]), 1234, None, None).0,
        Return { value: 0, error: ERROR_DENIED }
    );
    // Standard input on the kernel console has nothing for a process.
    assert_eq!(dispatch(&mut io, call(UniversalOp::Read, [0; 6]), 0, Some(b'x'), None).0, Return { value: 0, error: ERROR_NO_INPUT });
    let guard = io.enter_io(ProcessIo::session(IoTarget::User));
    assert_eq!(dispatch(&mut io, call(UniversalOp::Read, [0; 6]), 0, Some(b'x'), None).0, Return { value: b'x' as u64, error: 0 });
    assert_eq!(dispatch(&mut io, call(UniversalOp::Read, [0; 6]), 0, None, None).0, Return { value: 0, error: ERROR_NO_INPUT });
    io.leave_io(guard);
    assert_eq!(io.io, ProcessIo::kernel());
    assert_eq!(dispatch(&mut io, call(UniversalOp::Spawn, [0; 6]), 0, None, None).0, Return { value: 0, error: ERROR_UNSUPPORTED });
    assert_eq!(dispatch(&mut io, call(UniversalOp::MapRegion, [0; 6]), 0, None, None).0, Return { value: 0, error: ERROR_UNSUPPORTED });
}

#[test]
fn abi_writes_reach_their_rings() {
    let mut io = IoState::new();
    let _guard = io.enter_io(ProcessIo { stdin: IoTarget::User, stdout: IoTarget::User, stderr: IoTarget::Serial });
    let (answer, outputs) = dispatch(&mut io, call(UniversalOp::Write, [b'h' as u64, 0, 1, 0, 0, 0]), 0, None, None);
    assert_eq!(answer, Return { value: 1, error: 0 });
    assert_eq!(outputs, vec![Output { target: IoTarget::User, fd: 1, byte: b'h' }]);
    let (answer, outputs) = dispatch(&mut io, call(UniversalOp::Write, [0, 4, 1, 0, 0, 0]), 0, None, Some(b"i\x01!\n"));
    assert_eq!(answer, Return { value: 3, error: ERROR_INVALID });
    assert_eq!(outputs.len(), 3);
    let (answer, _) = dispatch(&mut io, call(UniversalOp::Write, [0, 3, 2, 0, 0, 0]), 0, None, Some(b"err"));
    assert_eq!(answer, Return { value: 3, error: 0 });
    let (answer, outputs) = dispatch(&mut io, call(UniversalOp::Write, [0, 3, 1, 0, 0, 0]), 0, None, None);
    assert_eq!(answer, Return { value: 0, error: ERROR_FAULT });
    assert!(outputs.is_empty());
    assert_eq!(
        dispatch(&mut io, call(UniversalOp::Write, [0x07, 0, 1, 0, 0, 0]), 0, None, None).0,
        Return { value: 0, error: ERROR_INVALID }
    );
    assert_eq!(
        dispatch_with(&mut io, CapabilitySet::clock(), call(UniversalOp::Write, [b'h' as u64, 0, 1, 0, 0, 0]), 0, None, None).0,
        Return { value: 0, error: ERROR_DENIED }
    );

    let status = io.io_status();
    assert_eq!((status.user_stdout, status.user_stderr, status.serial_stdout, status.serial_stderr), (4, 0, 0, 3));
    let mut out = vec![0u8; 8];
    assert_eq!(io.io_tail(IoTarget::User, 1, &mut out), 4);
    assert_eq!(&out[..4], b"hi!\n");
    assert_eq!(io.io_tail(IoTarget::Kernel, 1, &mut out), 0);
    let mut cursor = 2;
    let mut two = vec![0u8; 2];
    assert_eq!(io.io_read(IoTarget::User, 1, &mut cursor, &mut two), 2);
    assert_eq!((cursor, two.as_slice()), (4, &b"!\n"[..]));
    assert_eq!(io.io_read(IoTarget::User, 1, &mut cursor, &mut two), 0);
    let mut from_start = 0;
    assert_eq!(io.io_read(IoTarget::Serial, 2, &mut from_start, &mut out), 3);
    assert_eq!(&out[..3], b"err");
}

#[test]
fn ring_keeps_the_latest_bytes() {
    let mut ring = Ring::new();
    for i in 0..300u32 {
        ring.push((i % 256) as u8);
    }
    assert_eq!(ring.written(), 300);
    let mut out = vec![0u8; 4];
    assert_eq!(ring.tail(&mut out), 4);
    assert_eq!(out, vec![40, 41, 42, 43]);
    let mut cursor = 0;
    let mut first = vec![0u8; 2];
    assert_eq!(ring.read_from(&mut cursor, &mut first), 2);
    // Bytes 0..44 are gone: reading starts at the oldest kept, byte 44.
    assert_eq!((cursor, first), (46, vec![44, 45]));
    let mut big = vec![0u8; 1000];
    let mut end = 299;
    assert_eq!(ring.read_from(&mut end, &mut big), 1);
    assert_eq!(big[0], 43);
}
